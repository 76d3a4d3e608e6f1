//! Scanner: a single left-to-right pass that turns source text into the
//! token sequence the parser consumes. At each position it consumes the
//! longest valid token (maximal munch). Lexical errors are recorded as
//! values and scanning resumes, so one pass can surface several independent
//! errors; the token sequence always ends in exactly one `EOF` token.

use vstd::prelude::*;
use vstd::string::StrSliceExecFns;
use vstd::string::StringExecFns;

verus! {

use crate::token::Literal;
use crate::token::LiteralV;
use crate::token::Token;
use crate::token::TokenType;
use crate::token::TokenV;

/// A lexical error, recorded with the source line it was found on.
#[derive(Debug, Clone, Copy, PartialEq, Eq, Structural)]
pub enum LexError {
    UnexpectedCharacter { line: usize },
    UnterminatedString { line: usize },
}

/// A decimal digit.
pub open spec fn is_digit_char(c: char) -> bool {
    ('0' as u32) <= (c as u32) && (c as u32) <= ('9' as u32)
}

/// A letter or underscore: the characters an identifier may start with.
pub open spec fn is_alpha_char(c: char) -> bool {
    ||| ('a' as u32) <= (c as u32) && (c as u32) <= ('z' as u32)
    ||| ('A' as u32) <= (c as u32) && (c as u32) <= ('Z' as u32)
    ||| c == '_'
}

/// A character an identifier may continue with.
pub open spec fn is_alpha_numeric_char(c: char) -> bool {
    is_alpha_char(c) || is_digit_char(c)
}

/// How many identifier characters follow from position `j`.
pub open spec fn ident_run(s: Seq<char>, j: int) -> nat
    decreases s.len() - j,
{
    if 0 <= j < s.len() && is_alpha_numeric_char(s[j]) {
        (1 + ident_run(s, j + 1)) as nat
    } else {
        0
    }
}

/// How many decimal digits follow from position `j`.
pub open spec fn digits_run(s: Seq<char>, j: int) -> nat
    decreases s.len() - j,
{
    if 0 <= j < s.len() && is_digit_char(s[j]) {
        (1 + digits_run(s, j + 1)) as nat
    } else {
        0
    }
}

/// How many characters a line comment starting at position `j` spans:
/// everything up to, and not including, the next newline or the end.
pub open spec fn comment_run(s: Seq<char>, j: int) -> nat
    decreases s.len() - j,
{
    if 0 <= j < s.len() && s[j] != '\n' {
        (1 + comment_run(s, j + 1)) as nat
    } else {
        0
    }
}

/// The body of a string literal whose content starts at position `j`: the
/// number of characters before the closing quote (or the end of input), and
/// the number of newlines among them.
pub open spec fn string_body(s: Seq<char>, j: int) -> (nat, nat)
    decreases s.len() - j,
{
    if 0 <= j < s.len() && s[j] != '"' {
        let rest = string_body(s, j + 1);
        ((1 + rest.0) as nat, if s[j] == '\n' {
            (1 + rest.1) as nat
        } else {
            rest.1
        })
    } else {
        (0, 0)
    }
}

/// The length of the number literal starting at the digit at position `i`:
/// digits, then optionally a single dot followed by at least one digit.
pub open spec fn number_len(s: Seq<char>, i: int) -> nat {
    let d = 1 + digits_run(s, i + 1);
    let p = i + d;
    if p + 1 < s.len() && s[p] == '.' && is_digit_char(s[p + 1]) {
        (d + 1 + digits_run(s, p + 1)) as nat
    } else {
        d as nat
    }
}

/// The fixed keyword table: the kind of an identifier lexeme.
pub open spec fn spec_keyword(s: Seq<char>) -> TokenType {
    if s == "and"@ {
        TokenType::And
    } else if s == "class"@ {
        TokenType::Class
    } else if s == "else"@ {
        TokenType::Else
    } else if s == "false"@ {
        TokenType::False
    } else if s == "for"@ {
        TokenType::For
    } else if s == "fun"@ {
        TokenType::Fun
    } else if s == "if"@ {
        TokenType::If
    } else if s == "nil"@ {
        TokenType::Nil
    } else if s == "or"@ {
        TokenType::Or
    } else if s == "print"@ {
        TokenType::Print
    } else if s == "return"@ {
        TokenType::Return
    } else if s == "super"@ {
        TokenType::Super
    } else if s == "this"@ {
        TokenType::This
    } else if s == "true"@ {
        TokenType::True
    } else if s == "var"@ {
        TokenType::Var
    } else if s == "while"@ {
        TokenType::While
    } else {
        TokenType::Identifier
    }
}

/// A token with no literal value.
pub open spec fn simple_token(t: TokenType, lexeme: Seq<char>, line: nat) -> TokenV {
    TokenV { token_type: t, lexeme, literal: None, line }
}

/// The `EOF` sentinel token.
pub open spec fn eof_token_v(line: nat) -> TokenV {
    TokenV { token_type: TokenType::Eof, lexeme: Seq::empty(), literal: None, line }
}

/// What one scanning step, starting at position `i` on line `line`,
/// produces: at most one token, at most one error, how many characters it
/// consumes beyond the first, and the line it leaves the scanner on.
pub struct ScanStep {
    pub token: Option<TokenV>,
    pub error: Option<LexError>,
    pub extra: nat,
    pub next_line: nat,
}

/// A step that emits one single-character token.
pub open spec fn punct_step(s: Seq<char>, i: int, line: nat, t: TokenType) -> ScanStep {
    ScanStep {
        token: Some(simple_token(t, s.subrange(i, i + 1), line)),
        error: None,
        extra: 0,
        next_line: line,
    }
}

/// A step for `! = < >`: one character, or two when a `=` follows.
pub open spec fn two_char_step(
    s: Seq<char>,
    i: int,
    line: nat,
    single: TokenType,
    double: TokenType,
) -> ScanStep {
    if i + 1 < s.len() && s[i + 1] == '=' {
        ScanStep {
            token: Some(simple_token(double, s.subrange(i, i + 2), line)),
            error: None,
            extra: 1,
            next_line: line,
        }
    } else {
        punct_step(s, i, line, single)
    }
}

/// A step that consumes only the character at `i` and emits nothing.
pub open spec fn skip_step(line: nat) -> ScanStep {
    ScanStep { token: None, error: None, extra: 0, next_line: line }
}

/// The step taken on an opening quote at position `i`: a string token when
/// a closing quote follows, else an unterminated-string error at the line
/// the string started on. The literal value excludes the quotes; the token
/// carries the line the string ends on.
pub open spec fn string_step(s: Seq<char>, i: int, line: nat) -> ScanStep {
    let body = string_body(s, i + 1);
    let endline = (line + body.1) as nat;
    if i + 1 + body.0 < s.len() {
        ScanStep {
            token: Some(
                TokenV {
                    token_type: TokenType::String,
                    lexeme: s.subrange(i, i + 2 + body.0),
                    literal: Some(LiteralV::Str(s.subrange(i + 1, i + 1 + body.0))),
                    line: endline,
                },
            ),
            error: None,
            extra: (1 + body.0) as nat,
            next_line: endline,
        }
    } else {
        ScanStep {
            token: None,
            error: Some(LexError::UnterminatedString { line: line as usize }),
            extra: body.0,
            next_line: endline,
        }
    }
}

/// The step taken on a digit at position `i`: a number token whose literal
/// keeps the numeric text.
pub open spec fn number_step(s: Seq<char>, i: int, line: nat) -> ScanStep {
    let l = number_len(s, i);
    ScanStep {
        token: Some(
            TokenV {
                token_type: TokenType::Number,
                lexeme: s.subrange(i, i + l),
                literal: Some(LiteralV::Num(s.subrange(i, i + l))),
                line,
            },
        ),
        error: None,
        extra: (l - 1) as nat,
        next_line: line,
    }
}

/// The step taken on an identifier start at position `i`: the longest run
/// of identifier characters, classified through the keyword table.
pub open spec fn ident_step(s: Seq<char>, i: int, line: nat) -> ScanStep {
    let l = 1 + ident_run(s, i + 1);
    let lexeme = s.subrange(i, i + l);
    ScanStep {
        token: Some(simple_token(spec_keyword(lexeme), lexeme, line)),
        error: None,
        extra: (l - 1) as nat,
        next_line: line,
    }
}

/// One scanning step at position `i` of `s`, on line `line`: maximal munch
/// on the character at `i`.
pub open spec fn spec_step(s: Seq<char>, i: int, line: nat) -> ScanStep
    recommends
        0 <= i < s.len(),
{
    let c = s[i];
    if c == '(' {
        punct_step(s, i, line, TokenType::LeftParen)
    } else if c == ')' {
        punct_step(s, i, line, TokenType::RightParen)
    } else if c == '{' {
        punct_step(s, i, line, TokenType::LeftBrace)
    } else if c == '}' {
        punct_step(s, i, line, TokenType::RightBrace)
    } else if c == ',' {
        punct_step(s, i, line, TokenType::Comma)
    } else if c == '.' {
        punct_step(s, i, line, TokenType::Dot)
    } else if c == '-' {
        punct_step(s, i, line, TokenType::Minus)
    } else if c == '+' {
        punct_step(s, i, line, TokenType::Plus)
    } else if c == '*' {
        punct_step(s, i, line, TokenType::Star)
    } else if c == ';' {
        punct_step(s, i, line, TokenType::Semicolon)
    } else if c == '!' {
        two_char_step(s, i, line, TokenType::Bang, TokenType::BangEqual)
    } else if c == '=' {
        two_char_step(s, i, line, TokenType::Equal, TokenType::EqualEqual)
    } else if c == '<' {
        two_char_step(s, i, line, TokenType::Less, TokenType::LessEqual)
    } else if c == '>' {
        two_char_step(s, i, line, TokenType::Greater, TokenType::GreaterEqual)
    } else if c == '/' {
        if i + 1 < s.len() && s[i + 1] == '/' {
            ScanStep {
                token: None,
                error: None,
                extra: (1 + comment_run(s, i + 2)) as nat,
                next_line: line,
            }
        } else {
            punct_step(s, i, line, TokenType::Slash)
        }
    } else if c == ' ' || c == '\r' || c == '\t' {
        skip_step(line)
    } else if c == '\n' {
        ScanStep { token: None, error: None, extra: 0, next_line: line + 1 }
    } else if c == '"' {
        string_step(s, i, line)
    } else if is_digit_char(c) {
        number_step(s, i, line)
    } else if is_alpha_char(c) {
        ident_step(s, i, line)
    } else {
        ScanStep {
            token: None,
            error: Some(LexError::UnexpectedCharacter { line: line as usize }),
            extra: 0,
            next_line: line,
        }
    }
}

/// Everything a scan yields: the token sequence and the recorded errors.
pub struct ScanOut {
    pub toks: Seq<TokenV>,
    pub errs: Seq<LexError>,
}

/// An option as a sequence of zero or one elements.
pub open spec fn opt_seq<T>(o: Option<T>) -> Seq<T> {
    match o {
        Some(x) => seq![x],
        None => Seq::empty(),
    }
}

/// The tokens and errors produced by scanning `s` from position `i` on line
/// `line`, ending with the `EOF` sentinel.
pub open spec fn spec_scan_from(s: Seq<char>, i: int, line: nat) -> ScanOut
    decreases s.len() - i,
{
    if 0 <= i < s.len() {
        let st = spec_step(s, i, line);
        let next = i + 1 + st.extra;
        let nx = if next > s.len() {
            s.len() as int
        } else {
            next
        };
        let rest = spec_scan_from(s, nx, st.next_line);
        ScanOut { toks: opt_seq(st.token) + rest.toks, errs: opt_seq(st.error) + rest.errs }
    } else {
        ScanOut { toks: seq![eof_token_v(line)], errs: Seq::empty() }
    }
}

/// The full scan of a source text, starting on line 1.
pub open spec fn spec_scan(s: Seq<char>) -> ScanOut {
    spec_scan_from(s, 0, 1)
}

/// The views of a token sequence.
pub open spec fn tokens_view(ts: Seq<Token>) -> Seq<TokenV> {
    ts.map_values(|t: Token| t@)
}

/// A token's literal value is consistent with its kind: number tokens carry
/// a number literal and string tokens a string literal.
pub open spec fn literal_consistent_v(t: TokenV) -> bool {
    &&& t.token_type == TokenType::Number ==> (t.literal matches Some(LiteralV::Num(_)))
    &&& t.token_type == TokenType::String ==> (t.literal matches Some(LiteralV::Str(_)))
}

/// The same consistency, on a token record.
pub open spec fn wf_token(t: Token) -> bool {
    &&& t.token_type == TokenType::Number ==> (t.literal matches Some(Literal::Num(_)))
    &&& t.token_type == TokenType::String ==> (t.literal matches Some(Literal::Str(_)))
}

/// A well-formed token sequence, as the parser requires it: nonempty, ending
/// in exactly one `EOF` token, with consistent literals throughout.
pub open spec fn wf_tokens(ts: Seq<Token>) -> bool {
    &&& ts.len() >= 1
    &&& ts[ts.len() - 1].token_type == TokenType::Eof
    &&& forall|k: int| 0 <= k < ts.len() - 1 ==> ts[k].token_type != TokenType::Eof
    &&& forall|k: int| 0 <= k < ts.len() ==> wf_token(#[trigger] ts[k])
}

/// Line numbers never decrease along a token sequence.
pub open spec fn lines_non_decreasing(ts: Seq<TokenV>) -> bool {
    forall|j: int, k: int| 0 <= j <= k < ts.len() ==> #[trigger] ts[j].line <= #[trigger] ts[k].line
}

/// What one step guarantees: it consumes at least the one character, keeps
/// the line counter non-decreasing, and any token it emits is consistent,
/// is not `EOF`, and lies between the old and new line counters.
proof fn lemma_step_props(s: Seq<char>, i: int, line: nat)
    requires
        0 <= i < s.len(),
    ensures
        ({
            let st = spec_step(s, i, line);
            &&& st.next_line >= line
            &&& (st.token matches Some(t) ==> {
                &&& t.token_type != TokenType::Eof
                &&& literal_consistent_v(t)
                &&& line <= t.line <= st.next_line
            })
        }),
{
}

/// Scanning from any position yields at least the `EOF` sentinel; the
/// sentinel is the last token and the only `EOF`; every token's line is at
/// least the starting line; lines never decrease; and every token's literal
/// is consistent with its kind.
pub proof fn lemma_scan_from_wf(s: Seq<char>, i: int, line: nat)
    ensures
        ({
            let out = spec_scan_from(s, i, line);
            &&& out.toks.len() >= 1
            &&& out.toks[out.toks.len() - 1].token_type == TokenType::Eof
            &&& forall|k: int|
                0 <= k < out.toks.len() - 1 ==> (#[trigger] out.toks[k]).token_type
                    != TokenType::Eof
            &&& forall|k: int| 0 <= k < out.toks.len() ==> line <= (#[trigger] out.toks[k]).line
            &&& lines_non_decreasing(out.toks)
            &&& forall|k: int|
                0 <= k < out.toks.len() ==> literal_consistent_v(#[trigger] out.toks[k])
        }),
    decreases s.len() - i,
{
    if 0 <= i < s.len() {
        let st = spec_step(s, i, line);
        lemma_step_props(s, i, line);
        let next = i + 1 + st.extra;
        let nx = if next > s.len() {
            s.len() as int
        } else {
            next
        };
        lemma_scan_from_wf(s, nx, st.next_line);
    }
}

/// The scanner: a cursor over the source text, the tokens and errors
/// produced so far, and the current line.
pub struct Scanner {
    pub source: String,
    pub length: usize,
    pub tokens: Vec<Token>,
    pub errors: Vec<LexError>,
    pub start: usize,
    pub current: usize,
    pub line: usize,
}

impl Scanner {
    /// The scanner's internal invariant while scanning.
    pub open spec fn wf(&self) -> bool {
        &&& self.length == self.source@.len()
        &&& self.source@.len() < usize::MAX
        &&& self.current <= self.length
        &&& self.line as nat <= 1 + self.current as nat
        &&& 1 <= self.line
    }

    /// A scanner that has not scanned anything yet.
    pub open spec fn is_fresh(&self) -> bool {
        &&& self.source@.len() == 0
        &&& self.length == 0
        &&& self.tokens@.len() == 0
        &&& self.errors@.len() == 0
        &&& self.start == 0
        &&& self.current == 0
        &&& self.line == 1
    }

    fn is_at_end(&self) -> (r: bool)
        requires
            self.wf(),
        ensures
            r == (self.current >= self.source@.len()),
    {
        self.current >= self.length
    }

    fn peek(&self) -> (c: char)
        requires
            self.wf(),
        ensures
            c == (if self.current < self.source@.len() {
                self.source@[self.current as int]
            } else {
                '\0'
            }),
    {
        if self.is_at_end() {
            return '\0';
        }
        self.source.as_str().get_char(self.current)
    }

    fn peek_next(&self) -> (c: char)
        requires
            self.wf(),
        ensures
            c == (if self.current + 1 < self.source@.len() {
                self.source@[self.current as int + 1]
            } else {
                '\0'
            }),
    {
        if self.current + 1 >= self.length {
            return '\0';
        }
        self.source.as_str().get_char(self.current + 1)
    }

    fn advance(&mut self) -> (c: char)
        requires
            old(self).wf(),
            old(self).current < old(self).source@.len(),
        ensures
            final(self).wf(),
            c == old(self).source@[old(self).current as int],
            final(self).current == old(self).current + 1,
            final(self).source == old(self).source,
            final(self).length == old(self).length,
            final(self).tokens == old(self).tokens,
            final(self).errors == old(self).errors,
            final(self).start == old(self).start,
            final(self).line == old(self).line,
    {
        let c = self.source.as_str().get_char(self.current);
        self.current = self.current + 1;
        c
    }

    fn is_alpha(&self, c: char) -> (r: bool)
        ensures
            r == is_alpha_char(c),
    {
        let u = c as u32;
        (('a' as u32) <= u && u <= ('z' as u32)) || (('A' as u32) <= u && u <= ('Z' as u32)) || c
            == '_'
    }

    fn is_digit(&self, c: char) -> (r: bool)
        ensures
            r == is_digit_char(c),
    {
        let u = c as u32;
        ('0' as u32) <= u && u <= ('9' as u32)
    }

    fn is_alpha_numeric(&self, c: char) -> (r: bool)
        ensures
            r == is_alpha_numeric_char(c),
    {
        self.is_alpha(c) || self.is_digit(c)
    }

    /// Looks ahead one character: consumes it exactly when it is `expected`.
    fn matched(&mut self, expected: char) -> (r: bool)
        requires
            old(self).wf(),
        ensures
            final(self).wf(),
            r == (old(self).current < old(self).source@.len() && old(self).source@[old(
                self,
            ).current as int] == expected),
            r ==> final(self).current == old(self).current + 1,
            !r ==> final(self).current == old(self).current,
            final(self).source == old(self).source,
            final(self).length == old(self).length,
            final(self).tokens == old(self).tokens,
            final(self).errors == old(self).errors,
            final(self).start == old(self).start,
            final(self).line == old(self).line,
    {
        if self.is_at_end() {
            return false;
        }
        let c = self.source.as_str().get_char(self.current);
        if c == expected {
            self.current = self.current + 1;
            true
        } else {
            false
        }
    }

    /// Appends a token of the given kind and literal, with the lexeme
    /// `source[start..current]` and the current line.
    fn add_token(&mut self, token: TokenType, literal: Option<Literal>)
        requires
            old(self).wf(),
            old(self).start <= old(self).current <= old(self).source@.len(),
        ensures
            final(self).wf(),
            tokens_view(final(self).tokens@) == tokens_view(old(self).tokens@).push(
                TokenV {
                    token_type: token,
                    lexeme: old(self).source@.subrange(
                        old(self).start as int,
                        old(self).current as int,
                    ),
                    literal: crate::token::opt_view(literal),
                    line: old(self).line as nat,
                },
            ),
            final(self).source == old(self).source,
            final(self).length == old(self).length,
            final(self).errors == old(self).errors,
            final(self).start == old(self).start,
            final(self).current == old(self).current,
            final(self).line == old(self).line,
    {
        let text: &str = self.source.as_str().substring_char(self.start, self.current);
        let t = Token {
            token_type: token,
            lexeme: String::from_str(text),
            literal,
            line: self.line,
        };
        self.tokens.push(t);
        proof {
            assert(tokens_view(self.tokens@) =~= tokens_view(old(self).tokens@).push(
                TokenV {
                    token_type: token,
                    lexeme: old(self).source@.subrange(
                        old(self).start as int,
                        old(self).current as int,
                    ),
                    literal: crate::token::opt_view(literal),
                    line: old(self).line as nat,
                },
            ));
        }
    }

    /// Appends a token of the given kind with no literal value.
    fn add_token2(&mut self, token: TokenType)
        requires
            old(self).wf(),
            old(self).start <= old(self).current <= old(self).source@.len(),
        ensures
            final(self).wf(),
            tokens_view(final(self).tokens@) == tokens_view(old(self).tokens@).push(
                simple_token(
                    token,
                    old(self).source@.subrange(old(self).start as int, old(self).current as int),
                    old(self).line as nat,
                ),
            ),
            final(self).source == old(self).source,
            final(self).length == old(self).length,
            final(self).errors == old(self).errors,
            final(self).start == old(self).start,
            final(self).current == old(self).current,
            final(self).line == old(self).line,
    {
        self.add_token(token, None);
    }

    /// Consumes the longest run of identifier characters and appends an
    /// identifier or keyword token.
    fn identifier(&mut self)
        requires
            old(self).wf(),
            old(self).start + 1 == old(self).current,
            old(self).current <= old(self).source@.len(),
        ensures
            final(self).wf(),
            ({
                let st = ident_step(old(self).source@, old(self).start as int, old(self).line as nat);
                &&& tokens_view(final(self).tokens@) == tokens_view(old(self).tokens@) + opt_seq(st.token)
                &&& final(self).current as int == old(self).start + 1 + st.extra
            }),
            final(self).source == old(self).source,
            final(self).length == old(self).length,
            final(self).errors == old(self).errors,
            final(self).start == old(self).start,
            final(self).line == old(self).line,
    {
        let ghost s0: Seq<char> = self.source@;
        let ghost start0: int = self.start as int;
        let ghost snap: Scanner = *self;
        while self.is_alpha_numeric(self.peek())
            invariant
                self.wf(),
                self.source == snap.source,
                self.source@ == s0,
                self.length == snap.length,
                self.tokens == snap.tokens,
                self.errors == snap.errors,
                self.start == snap.start,
                self.line == snap.line,
                start0 + 1 <= self.current as int <= self.source@.len(),
                ident_run(s0, start0 + 1) == (self.current - start0 - 1) + ident_run(
                    s0,
                    self.current as int,
                ),
            decreases s0.len() - self.current,
        {
            self.advance();
        }
        proof {
            assert(ident_run(s0, self.current as int) == 0);
        }
        let text: &str = self.source.as_str().substring_char(self.start, self.current);
        let lexeme = String::from_str(text);
        let t = keyword_kind(&lexeme);
        self.add_token(t, None);
        proof {
            let st = ident_step(s0, start0, old(self).line as nat);
            assert(tokens_view(self.tokens@) =~= tokens_view(old(self).tokens@) + opt_seq(
                st.token,
            ));
        }
    }

    /// Consumes a number literal: digits, then optionally a dot followed by
    /// more digits. The token's literal keeps the numeric text.
    fn number(&mut self)
        requires
            old(self).wf(),
            old(self).start + 1 == old(self).current,
            old(self).current <= old(self).source@.len(),
            is_digit_char(old(self).source@[old(self).start as int]),
        ensures
            final(self).wf(),
            ({
                let st = number_step(old(self).source@, old(self).start as int, old(self).line as nat);
                &&& tokens_view(final(self).tokens@) == tokens_view(old(self).tokens@) + opt_seq(st.token)
                &&& final(self).current as int == old(self).start + 1 + st.extra
            }),
            final(self).source == old(self).source,
            final(self).length == old(self).length,
            final(self).errors == old(self).errors,
            final(self).start == old(self).start,
            final(self).line == old(self).line,
    {
        let ghost s0: Seq<char> = self.source@;
        let ghost start0: int = self.start as int;
        let ghost snap: Scanner = *self;
        while self.is_digit(self.peek())
            invariant
                self.wf(),
                self.source == snap.source,
                self.source@ == s0,
                self.length == snap.length,
                self.tokens == snap.tokens,
                self.errors == snap.errors,
                self.start == snap.start,
                self.line == snap.line,
                start0 + 1 <= self.current as int <= self.source@.len(),
                digits_run(s0, start0 + 1) == (self.current - start0 - 1) + digits_run(
                    s0,
                    self.current as int,
                ),
            decreases s0.len() - self.current,
        {
            self.advance();
        }
        proof {
            assert(digits_run(s0, self.current as int) == 0);
        }
        let ghost p: int = self.current as int;
        if self.peek() == '.' && self.is_digit(self.peek_next()) {
            self.advance();
            let ghost snap2: Scanner = *self;
            while self.is_digit(self.peek())
                invariant
                    self.wf(),
                    self.source == snap2.source,
                    self.source@ == s0,
                    self.length == snap2.length,
                    self.tokens == snap2.tokens,
                    self.errors == snap2.errors,
                    self.start == snap2.start,
                    self.line == snap2.line,
                    p + 1 <= self.current as int <= self.source@.len(),
                    digits_run(s0, p + 1) == (self.current - p - 1) + digits_run(
                        s0,
                        self.current as int,
                    ),
                decreases s0.len() - self.current,
            {
                self.advance();
            }
            proof {
                assert(digits_run(s0, self.current as int) == 0);
            }
        }
        proof {
            assert(self.current as int == start0 + number_len(s0, start0));
        }
        let text: &str = self.source.as_str().substring_char(self.start, self.current);
        let value = String::from_str(text);
        self.add_token(TokenType::Number, Some(Literal::Num(value)));
        proof {
            let st = number_step(s0, start0, old(self).line as nat);
            assert(tokens_view(self.tokens@) =~= tokens_view(old(self).tokens@) + opt_seq(
                st.token,
            ));
        }
    }

    /// Consumes a string literal up to its closing quote, counting embedded
    /// newlines; an unterminated string is recorded as an error at the line
    /// the string started on.
    fn string(&mut self)
        requires
            old(self).wf(),
            old(self).start + 1 == old(self).current,
            old(self).current <= old(self).source@.len(),
            old(self).source@[old(self).start as int] == '"',
        ensures
            final(self).wf(),
            ({
                let st = string_step(old(self).source@, old(self).start as int, old(self).line as nat);
                &&& tokens_view(final(self).tokens@) == tokens_view(old(self).tokens@) + opt_seq(st.token)
                &&& final(self).errors@ == old(self).errors@ + opt_seq(st.error)
                &&& final(self).current as int == old(self).start + 1 + st.extra
                &&& final(self).line as nat == st.next_line
            }),
            final(self).source == old(self).source,
            final(self).length == old(self).length,
            final(self).start == old(self).start,
    {
        let start_line: usize = self.line;
        let ghost s0: Seq<char> = self.source@;
        let ghost start0: int = self.start as int;
        let ghost line0: int = self.line as int;
        let ghost snap: Scanner = *self;
        while self.peek() != '"' && !self.is_at_end()
            invariant
                self.wf(),
                self.source == snap.source,
                self.source@ == s0,
                self.length == snap.length,
                self.tokens == snap.tokens,
                self.errors == snap.errors,
                self.start == snap.start,
                start0 + 1 <= self.current as int <= self.source@.len(),
                string_body(s0, start0 + 1).0 == (self.current - start0 - 1) + string_body(
                    s0,
                    self.current as int,
                ).0,
                string_body(s0, start0 + 1).1 == (self.line - line0) + string_body(
                    s0,
                    self.current as int,
                ).1,
                line0 <= self.line as int,
            decreases s0.len() - self.current,
        {
            let c = self.advance();
            if c == '\n' {
                self.line = self.line + 1;
            }
        }
        proof {
            assert(string_body(s0, self.current as int).0 == 0);
            assert(string_body(s0, self.current as int).1 == 0);
        }
        if self.is_at_end() {
            self.errors.push(LexError::UnterminatedString { line: start_line });
            proof {
                let st = string_step(s0, start0, old(self).line as nat);
                assert(self.errors@ =~= old(self).errors@ + opt_seq(st.error));
                assert(tokens_view(self.tokens@) =~= tokens_view(old(self).tokens@) + opt_seq(
                    st.token,
                ));
            }
            return ;
        }
        self.advance();
        let text: &str = self.source.as_str().substring_char(self.start + 1, self.current - 1);
        let value = String::from_str(text);
        self.add_token(TokenType::String, Some(Literal::Str(value)));
        proof {
            let st = string_step(s0, start0, old(self).line as nat);
            assert(tokens_view(self.tokens@) =~= tokens_view(old(self).tokens@) + opt_seq(
                st.token,
            ));
            assert(self.errors@ =~= old(self).errors@ + opt_seq(st.error));
        }
    }

    /// Dispatches on the character just consumed and performs one full
    /// scanning step: it consumes the rest of the token's characters and
    /// appends at most one token or records at most one error.
    pub fn match_toks(&mut self, c: char)
        requires
            old(self).wf(),
            old(self).start + 1 == old(self).current,
            old(self).current <= old(self).source@.len(),
            old(self).line as nat <= 1 + old(self).start as nat,
            c == old(self).source@[old(self).start as int],
        ensures
            final(self).wf(),
            ({
                let st = spec_step(old(self).source@, old(self).start as int, old(self).line as nat);
                &&& tokens_view(final(self).tokens@) == tokens_view(old(self).tokens@) + opt_seq(st.token)
                &&& final(self).errors@ == old(self).errors@ + opt_seq(st.error)
                &&& final(self).current as int == old(self).start + 1 + st.extra
                &&& final(self).line as nat == st.next_line
            }),
            final(self).source == old(self).source,
            final(self).length == old(self).length,
            final(self).start == old(self).start,
    {
        let ghost s0: Seq<char> = self.source@;
        let ghost start0: int = self.start as int;
        let ghost st = spec_step(s0, start0, old(self).line as nat);
        match c {
            '(' => {
                self.add_token2(TokenType::LeftParen);
                proof {
                    lemma_push_is_concat(old(self).tokens@, self.tokens@, st.token);
                    assert(self.errors@ =~= old(self).errors@ + opt_seq(st.error));
                }
            },
            ')' => {
                self.add_token2(TokenType::RightParen);
                proof {
                    lemma_push_is_concat(old(self).tokens@, self.tokens@, st.token);
                    assert(self.errors@ =~= old(self).errors@ + opt_seq(st.error));
                }
            },
            '{' => {
                self.add_token2(TokenType::LeftBrace);
                proof {
                    lemma_push_is_concat(old(self).tokens@, self.tokens@, st.token);
                    assert(self.errors@ =~= old(self).errors@ + opt_seq(st.error));
                }
            },
            '}' => {
                self.add_token2(TokenType::RightBrace);
                proof {
                    lemma_push_is_concat(old(self).tokens@, self.tokens@, st.token);
                    assert(self.errors@ =~= old(self).errors@ + opt_seq(st.error));
                }
            },
            ',' => {
                self.add_token2(TokenType::Comma);
                proof {
                    lemma_push_is_concat(old(self).tokens@, self.tokens@, st.token);
                    assert(self.errors@ =~= old(self).errors@ + opt_seq(st.error));
                }
            },
            '.' => {
                self.add_token2(TokenType::Dot);
                proof {
                    lemma_push_is_concat(old(self).tokens@, self.tokens@, st.token);
                    assert(self.errors@ =~= old(self).errors@ + opt_seq(st.error));
                }
            },
            '-' => {
                self.add_token2(TokenType::Minus);
                proof {
                    lemma_push_is_concat(old(self).tokens@, self.tokens@, st.token);
                    assert(self.errors@ =~= old(self).errors@ + opt_seq(st.error));
                }
            },
            '+' => {
                self.add_token2(TokenType::Plus);
                proof {
                    lemma_push_is_concat(old(self).tokens@, self.tokens@, st.token);
                    assert(self.errors@ =~= old(self).errors@ + opt_seq(st.error));
                }
            },
            '*' => {
                self.add_token2(TokenType::Star);
                proof {
                    lemma_push_is_concat(old(self).tokens@, self.tokens@, st.token);
                    assert(self.errors@ =~= old(self).errors@ + opt_seq(st.error));
                }
            },
            ';' => {
                self.add_token2(TokenType::Semicolon);
                proof {
                    lemma_push_is_concat(old(self).tokens@, self.tokens@, st.token);
                    assert(self.errors@ =~= old(self).errors@ + opt_seq(st.error));
                }
            },
            '!' => {
                if self.matched('=') {
                    self.add_token2(TokenType::BangEqual);
                } else {
                    self.add_token2(TokenType::Bang);
                }
                proof {
                    lemma_push_is_concat(old(self).tokens@, self.tokens@, st.token);
                    assert(self.errors@ =~= old(self).errors@ + opt_seq(st.error));
                }
            },
            '=' => {
                if self.matched('=') {
                    self.add_token2(TokenType::EqualEqual);
                } else {
                    self.add_token2(TokenType::Equal);
                }
                proof {
                    lemma_push_is_concat(old(self).tokens@, self.tokens@, st.token);
                    assert(self.errors@ =~= old(self).errors@ + opt_seq(st.error));
                }
            },
            '<' => {
                if self.matched('=') {
                    self.add_token2(TokenType::LessEqual);
                } else {
                    self.add_token2(TokenType::Less);
                }
                proof {
                    lemma_push_is_concat(old(self).tokens@, self.tokens@, st.token);
                    assert(self.errors@ =~= old(self).errors@ + opt_seq(st.error));
                }
            },
            '>' => {
                if self.matched('=') {
                    self.add_token2(TokenType::GreaterEqual);
                } else {
                    self.add_token2(TokenType::Greater);
                }
                proof {
                    lemma_push_is_concat(old(self).tokens@, self.tokens@, st.token);
                    assert(self.errors@ =~= old(self).errors@ + opt_seq(st.error));
                }
            },
            '/' => {
                if self.matched('/') {
                    let ghost snap: Scanner = *self;
                    while self.peek() != '\n' && !self.is_at_end()
                        invariant
                            self.wf(),
                            self.source == snap.source,
                            self.source@ == s0,
                            self.length == snap.length,
                            self.tokens == snap.tokens,
                            self.errors == snap.errors,
                            self.start == snap.start,
                            self.line == snap.line,
                            start0 + 2 <= self.current as int <= self.source@.len(),
                            comment_run(s0, start0 + 2) == (self.current - start0 - 2)
                                + comment_run(s0, self.current as int),
                        decreases s0.len() - self.current,
                    {
                        self.advance();
                    }
                    proof {
                        assert(comment_run(s0, self.current as int) == 0);
                        assert(tokens_view(self.tokens@) =~= tokens_view(old(self).tokens@)
                            + opt_seq(st.token));
                        assert(self.errors@ =~= old(self).errors@ + opt_seq(st.error));
                    }
                } else {
                    self.add_token2(TokenType::Slash);
                    proof {
                        lemma_push_is_concat(old(self).tokens@, self.tokens@, st.token);
                        assert(self.errors@ =~= old(self).errors@ + opt_seq(st.error));
                    }
                }
            },
            ' ' => {
                proof {
                    assert(tokens_view(self.tokens@) =~= tokens_view(old(self).tokens@) + opt_seq(
                        st.token,
                    ));
                    assert(self.errors@ =~= old(self).errors@ + opt_seq(st.error));
                }
            },
            '\r' => {
                proof {
                    assert(tokens_view(self.tokens@) =~= tokens_view(old(self).tokens@) + opt_seq(
                        st.token,
                    ));
                    assert(self.errors@ =~= old(self).errors@ + opt_seq(st.error));
                }
            },
            '\t' => {
                proof {
                    assert(tokens_view(self.tokens@) =~= tokens_view(old(self).tokens@) + opt_seq(
                        st.token,
                    ));
                    assert(self.errors@ =~= old(self).errors@ + opt_seq(st.error));
                }
            },
            '\n' => {
                self.line = self.line + 1;
                proof {
                    assert(tokens_view(self.tokens@) =~= tokens_view(old(self).tokens@) + opt_seq(
                        st.token,
                    ));
                    assert(self.errors@ =~= old(self).errors@ + opt_seq(st.error));
                }
            },
            '"' => {
                self.string();
            },
            _ => {
                if self.is_digit(c) {
                    self.number();
                    proof {
                        assert(self.errors@ =~= old(self).errors@ + opt_seq(st.error));
                    }
                } else if self.is_alpha(c) {
                    self.identifier();
                    proof {
                        assert(self.errors@ =~= old(self).errors@ + opt_seq(st.error));
                    }
                } else {
                    self.errors.push(LexError::UnexpectedCharacter { line: self.line });
                    proof {
                        assert(tokens_view(self.tokens@) =~= tokens_view(old(self).tokens@)
                            + opt_seq(st.token));
                        assert(self.errors@ =~= old(self).errors@ + opt_seq(st.error));
                    }
                }
            },
        }
    }

    /// Consumes one character and takes the matching scanning step.
    fn scan_token(&mut self)
        requires
            old(self).wf(),
            old(self).start == old(self).current,
            old(self).current < old(self).source@.len(),
        ensures
            final(self).wf(),
            ({
                let st = spec_step(
                    old(self).source@,
                    old(self).current as int,
                    old(self).line as nat,
                );
                &&& tokens_view(final(self).tokens@) == tokens_view(old(self).tokens@) + opt_seq(st.token)
                &&& final(self).errors@ == old(self).errors@ + opt_seq(st.error)
                &&& final(self).current as int == old(self).current + 1 + st.extra
                &&& final(self).line as nat == st.next_line
            }),
            final(self).source == old(self).source,
            final(self).length == old(self).length,
    {
        let c = self.advance();
        self.match_toks(c);
    }

    /// Scans the whole source text: the resulting token sequence is exactly
    /// the specified scan of the text, ends in one `EOF` token, and its line
    /// numbers never decrease; the recorded errors are exactly the scan's
    /// errors.
    pub fn scan_tokens(&mut self, source: String) -> (r: &Vec<Token>)
        requires
            old(self).is_fresh(),
            source@.len() < usize::MAX,
        ensures
            r@ == final(self).tokens@,
            tokens_view(final(self).tokens@) == spec_scan(source@).toks,
            final(self).errors@ == spec_scan(source@).errs,
            wf_tokens(final(self).tokens@),
            lines_non_decreasing(tokens_view(final(self).tokens@)),
    {
        let ghost s0: Seq<char> = source@;
        self.source = source;
        self.length = self.source.as_str().unicode_len();
        while !self.is_at_end()
            invariant
                self.wf(),
                self.source@ == s0,
                tokens_view(self.tokens@) + spec_scan_from(
                    s0,
                    self.current as int,
                    self.line as nat,
                ).toks == spec_scan(s0).toks,
                self.errors@ + spec_scan_from(s0, self.current as int, self.line as nat).errs
                    == spec_scan(s0).errs,
            decreases s0.len() - self.current,
        {
            self.start = self.current;
            let ghost pre: Scanner = *self;
            self.scan_token();
            proof {
                let st = spec_step(s0, pre.current as int, pre.line as nat);
                assert(spec_scan_from(s0, pre.current as int, pre.line as nat).toks =~= opt_seq(
                    st.token,
                ) + spec_scan_from(s0, self.current as int, self.line as nat).toks);
                assert(spec_scan_from(s0, pre.current as int, pre.line as nat).errs =~= opt_seq(
                    st.error,
                ) + spec_scan_from(s0, self.current as int, self.line as nat).errs);
                assert(tokens_view(self.tokens@) + spec_scan_from(
                    s0,
                    self.current as int,
                    self.line as nat,
                ).toks =~= spec_scan(s0).toks);
                assert(self.errors@ + spec_scan_from(s0, self.current as int, self.line as nat).errs
                    =~= spec_scan(s0).errs);
            }
        }
        let eof = Token {
            token_type: TokenType::Eof,
            lexeme: String::from_str(""),
            literal: None,
            line: self.line,
        };
        self.tokens.push(eof);
        proof {
            reveal_strlit("");
            assert(""@ =~= Seq::<char>::empty());
            assert(tokens_view(self.tokens@) =~= spec_scan(s0).toks);
            assert(self.errors@ =~= spec_scan(s0).errs);
            lemma_scan_from_wf(s0, 0, 1);
            lemma_wf_tokens_from_view(self.tokens@);
        }
        &self.tokens
    }
}

impl Default for Scanner {
    /// A fresh scanner, starting at line 1 with nothing scanned.
    fn default() -> (r: Self)
        ensures
            r.is_fresh(),
    {
        Scanner {
            source: String::new(),
            length: 0,
            tokens: Vec::new(),
            errors: Vec::new(),
            start: 0,
            current: 0,
            line: 1,
        }
    }
}

/// Appending one optional token to a mapped sequence is the same as
/// concatenating its zero-or-one-element sequence.
proof fn lemma_push_is_concat(before: Seq<Token>, after: Seq<Token>, tok: Option<TokenV>)
    requires
        tok matches Some(t) ==> tokens_view(after) == tokens_view(before).push(t),
        tok is None ==> after == before,
    ensures
        tokens_view(after) == tokens_view(before) + opt_seq(tok),
{
    match tok {
        Some(t) => {
            assert(tokens_view(after) =~= tokens_view(before) + opt_seq(tok));
        },
        None => {
            assert(tokens_view(after) =~= tokens_view(before) + opt_seq(tok));
        },
    }
}

/// A token sequence whose views end in one `EOF` with consistent literals
/// is well formed as a sequence of token records.
proof fn lemma_wf_tokens_from_view(ts: Seq<Token>)
    requires
        tokens_view(ts).len() >= 1,
        tokens_view(ts)[tokens_view(ts).len() - 1].token_type == TokenType::Eof,
        forall|k: int|
            0 <= k < tokens_view(ts).len() - 1 ==> (#[trigger] tokens_view(ts)[k]).token_type
                != TokenType::Eof,
        forall|k: int|
            0 <= k < tokens_view(ts).len() ==> literal_consistent_v(#[trigger] tokens_view(ts)[k]),
    ensures
        wf_tokens(ts),
{
    assert forall|k: int| 0 <= k < ts.len() implies wf_token(#[trigger] ts[k]) by {
        assert(tokens_view(ts)[k] == ts[k]@);
        assert(literal_consistent_v(ts[k]@));
    }
    assert forall|k: int| 0 <= k < ts.len() - 1 implies ts[k].token_type != TokenType::Eof by {
        assert(tokens_view(ts)[k] == ts[k]@);
    }
    assert(tokens_view(ts)[ts.len() - 1] == ts[ts.len() - 1]@);
}

/// Compares a string's text with a literal's.
fn string_eq_str(a: &String, lit: &str) -> (r: bool)
    ensures
        r == (a@ == lit@),
{
    a.eq(&String::from_str(lit))
}

/// Classifies an identifier lexeme through the fixed keyword table.
fn keyword_kind(lexeme: &String) -> (t: TokenType)
    ensures
        t == spec_keyword(lexeme@),
{
    if string_eq_str(lexeme, "and") {
        TokenType::And
    } else if string_eq_str(lexeme, "class") {
        TokenType::Class
    } else if string_eq_str(lexeme, "else") {
        TokenType::Else
    } else if string_eq_str(lexeme, "false") {
        TokenType::False
    } else if string_eq_str(lexeme, "for") {
        TokenType::For
    } else if string_eq_str(lexeme, "fun") {
        TokenType::Fun
    } else if string_eq_str(lexeme, "if") {
        TokenType::If
    } else if string_eq_str(lexeme, "nil") {
        TokenType::Nil
    } else if string_eq_str(lexeme, "or") {
        TokenType::Or
    } else if string_eq_str(lexeme, "print") {
        TokenType::Print
    } else if string_eq_str(lexeme, "return") {
        TokenType::Return
    } else if string_eq_str(lexeme, "super") {
        TokenType::Super
    } else if string_eq_str(lexeme, "this") {
        TokenType::This
    } else if string_eq_str(lexeme, "true") {
        TokenType::True
    } else if string_eq_str(lexeme, "var") {
        TokenType::Var
    } else if string_eq_str(lexeme, "while") {
        TokenType::While
    } else {
        TokenType::Identifier
    }
}

} // verus!
