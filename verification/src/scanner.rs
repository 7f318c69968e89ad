//! The lexer: source text to a token sequence.
//!
//! The spec function [`spec_scan`] is the mathematical model: it walks the
//! character sequence from a position, with a current line number and the
//! tokens produced so far, and yields either the complete token sequence
//! (ending in exactly one `Eof`) or a lexical error.  The executable
//! [`Scanner`] is proved to return exactly what `spec_scan` says.

use vstd::prelude::*;
use vstd::string::StrSliceExecFns;
use vstd::string::StringExecFns;

use crate::error::{ScannerError, ScannerErrorType, VeonError};
use crate::numbers::{digits_val, is_digit, parse_digits};
use crate::token::{str_eq, token_view, tokens_view, Token, TokenType, TokenV, Value, ValueV};

verus! {

broadcast use vstd::seq::group_seq_axioms, vstd::std_specs::vec::group_vec_axioms;

/// Whether `c` may start an identifier: an ASCII letter or `_`.
pub open spec fn is_alpha(c: char) -> bool {
    (65 <= c as u32 <= 90) || (97 <= c as u32 <= 122) || c as u32 == 95
}

/// Whether `c` may continue an identifier.
pub open spec fn is_alpha_numeric(c: char) -> bool {
    is_alpha(c) || is_digit(c)
}

/// The index of the first `"` at or after `j`, or the length if none.
pub open spec fn string_end(src: Seq<char>, j: int) -> int
    decreases src.len() - j,
{
    if j < 0 || j >= src.len() {
        src.len() as int
    } else if src[j] == '"' {
        j
    } else {
        string_end(src, j + 1)
    }
}

/// The index of the first non-digit at or after `j`, or the length.
pub open spec fn number_end(src: Seq<char>, j: int) -> int
    decreases src.len() - j,
{
    if j < 0 || j >= src.len() {
        src.len() as int
    } else if !is_digit(src[j]) {
        j
    } else {
        number_end(src, j + 1)
    }
}

/// The index of the first non-identifier character at or after `j`.
pub open spec fn ident_end(src: Seq<char>, j: int) -> int
    decreases src.len() - j,
{
    if j < 0 || j >= src.len() {
        src.len() as int
    } else if !is_alpha_numeric(src[j]) {
        j
    } else {
        ident_end(src, j + 1)
    }
}

/// The index of the first newline at or after `j`, or the length.
pub open spec fn comment_end(src: Seq<char>, j: int) -> int
    decreases src.len() - j,
{
    if j < 0 || j >= src.len() {
        src.len() as int
    } else if src[j] == '\n' {
        j
    } else {
        comment_end(src, j + 1)
    }
}

/// The number of newline characters in `src[i..j]`.
pub open spec fn count_lines(src: Seq<char>, i: int, j: int) -> nat
    decreases j - i,
{
    if i < 0 || i >= j || j > src.len() {
        0
    } else {
        (if src[i] == '\n' {
            1nat
        } else {
            0nat
        }) + count_lines(src, i + 1, j)
    }
}

/// Keyword classification of an identifier lexeme: its token kind and
/// literal payload.
pub open spec fn ident_token(s: Seq<char>) -> TokenV {
    let t = if s == "fun"@ {
        (TokenType::Fun, ValueV::Void)
    } else if s == "let"@ {
        (TokenType::Let, ValueV::Void)
    } else if s == "class"@ {
        (TokenType::Class, ValueV::Void)
    } else if s == "this"@ {
        (TokenType::This, ValueV::Void)
    } else if s == "if"@ {
        (TokenType::If, ValueV::Void)
    } else if s == "else"@ {
        (TokenType::Else, ValueV::Void)
    } else if s == "while"@ {
        (TokenType::While, ValueV::Void)
    } else if s == "for"@ {
        (TokenType::For, ValueV::Void)
    } else if s == "return"@ {
        (TokenType::Return, ValueV::Void)
    } else if s == "and"@ {
        (TokenType::And, ValueV::Void)
    } else if s == "or"@ {
        (TokenType::Or, ValueV::Void)
    } else if s == "true"@ {
        (TokenType::Boolean, ValueV::Bool(true))
    } else if s == "false"@ {
        (TokenType::Boolean, ValueV::Bool(false))
    } else if s == "null"@ {
        (TokenType::Null, ValueV::Null)
    } else {
        (TokenType::Identifier, ValueV::Str(s))
    };
    TokenV { tty: t.0, value: t.1, line: 0 }
}

/// Bounds of [`string_end`]: it stays within `[j, len]` and lands on a quote
/// when it is within range.
pub proof fn lemma_string_end_bounds(src: Seq<char>, j: int)
    requires
        0 <= j <= src.len(),
    ensures
        j <= string_end(src, j) <= src.len(),
        string_end(src, j) < src.len() ==> src[string_end(src, j)] == '"',
    decreases src.len() - j,
{
    if j < src.len() && src[j] != '"' {
        lemma_string_end_bounds(src, j + 1);
    }
}

/// Bounds of [`number_end`]: it stays within `[j, len]`.
pub proof fn lemma_number_end_bounds(src: Seq<char>, j: int)
    requires
        0 <= j <= src.len(),
    ensures
        j <= number_end(src, j) <= src.len(),
        forall|m: int| j <= m < number_end(src, j) ==> is_digit(#[trigger] src[m]),
    decreases src.len() - j,
{
    if j < src.len() && is_digit(src[j]) {
        lemma_number_end_bounds(src, j + 1);
    }
}

/// Bounds of [`ident_end`]: it stays within `[j, len]`.
pub proof fn lemma_ident_end_bounds(src: Seq<char>, j: int)
    requires
        0 <= j <= src.len(),
    ensures
        j <= ident_end(src, j) <= src.len(),
    decreases src.len() - j,
{
    if j < src.len() && is_alpha_numeric(src[j]) {
        lemma_ident_end_bounds(src, j + 1);
    }
}

/// Bounds of [`comment_end`]: it stays within `[j, len]`.
pub proof fn lemma_comment_end_bounds(src: Seq<char>, j: int)
    requires
        0 <= j <= src.len(),
    ensures
        j <= comment_end(src, j) <= src.len(),
    decreases src.len() - j,
{
    if j < src.len() && src[j] != '\n' {
        lemma_comment_end_bounds(src, j + 1);
    }
}

/// The outcome of scanning: the token views, or an error message (the kind
/// is always `InvalidToken`).
pub enum ScanOut {
    Toks(Seq<TokenV>),
    Fail(Seq<char>),
}

/// A token with no literal payload.
pub open spec fn simple_tok(tty: TokenType, line: nat) -> TokenV {
    TokenV { tty, value: ValueV::Void, line }
}

/// The model of the scan loop: from position `i` on line `line`, with the
/// tokens scanned so far in `acc`, produce the full token sequence or fail.
pub open spec fn spec_scan(src: Seq<char>, i: int, line: nat, acc: Seq<TokenV>) -> ScanOut
    decreases src.len() - i,
        via spec_scan_decreases
{
    if i < 0 {
        ScanOut::Fail(Seq::empty())
    } else if i >= src.len() {
        ScanOut::Toks(acc.push(simple_tok(TokenType::Eof, line)))
    } else {
        let c = src[i];
        if c == '(' {
            spec_scan(src, i + 1, line, acc.push(simple_tok(TokenType::LeftParen, line)))
        } else if c == ')' {
            spec_scan(src, i + 1, line, acc.push(simple_tok(TokenType::RightParen, line)))
        } else if c == '{' {
            spec_scan(src, i + 1, line, acc.push(simple_tok(TokenType::LeftBrace, line)))
        } else if c == '}' {
            spec_scan(src, i + 1, line, acc.push(simple_tok(TokenType::RightBrace, line)))
        } else if c == '[' {
            spec_scan(src, i + 1, line, acc.push(simple_tok(TokenType::LeftBracket, line)))
        } else if c == ']' {
            spec_scan(src, i + 1, line, acc.push(simple_tok(TokenType::RightBracket, line)))
        } else if c == ',' {
            spec_scan(src, i + 1, line, acc.push(simple_tok(TokenType::Comma, line)))
        } else if c == ';' {
            spec_scan(src, i + 1, line, acc.push(simple_tok(TokenType::Semicolon, line)))
        } else if c == '.' {
            spec_scan(src, i + 1, line, acc.push(simple_tok(TokenType::Dot, line)))
        } else if c == '+' {
            spec_scan(src, i + 1, line, acc.push(simple_tok(TokenType::Plus, line)))
        } else if c == '-' {
            spec_scan(src, i + 1, line, acc.push(simple_tok(TokenType::Minus, line)))
        } else if c == '*' {
            spec_scan(src, i + 1, line, acc.push(simple_tok(TokenType::Star, line)))
        } else if c == '/' {
            if i + 1 < src.len() && src[i + 1] == '/' {
                spec_scan(src, comment_end(src, i + 2), line, acc)
            } else {
                spec_scan(src, i + 1, line, acc.push(simple_tok(TokenType::Slash, line)))
            }
        } else if c == '%' {
            spec_scan(src, i + 1, line, acc.push(simple_tok(TokenType::Modulo, line)))
        } else if c == '?' {
            spec_scan(src, i + 1, line, acc.push(simple_tok(TokenType::QuestionMark, line)))
        } else if c == '>' {
            if i + 1 < src.len() && src[i + 1] == '=' {
                spec_scan(src, i + 2, line, acc.push(simple_tok(TokenType::GreaterEqual, line)))
            } else {
                spec_scan(src, i + 1, line, acc.push(simple_tok(TokenType::Greater, line)))
            }
        } else if c == '<' {
            if i + 1 < src.len() && src[i + 1] == '=' {
                spec_scan(src, i + 2, line, acc.push(simple_tok(TokenType::LessEqual, line)))
            } else {
                spec_scan(src, i + 1, line, acc.push(simple_tok(TokenType::Less, line)))
            }
        } else if c == '=' {
            if i + 1 < src.len() && src[i + 1] == '=' {
                spec_scan(src, i + 2, line, acc.push(simple_tok(TokenType::EqualEqual, line)))
            } else {
                spec_scan(src, i + 1, line, acc.push(simple_tok(TokenType::Equal, line)))
            }
        } else if c == '!' {
            if i + 1 < src.len() && src[i + 1] == '=' {
                spec_scan(src, i + 2, line, acc.push(simple_tok(TokenType::NotEqual, line)))
            } else {
                spec_scan(src, i + 1, line, acc.push(simple_tok(TokenType::Not, line)))
            }
        } else if c == '"' {
            let k = string_end(src, i + 1);
            if k >= src.len() {
                ScanOut::Fail("Unterminated string"@)
            } else {
                let nl = line + count_lines(src, i + 1, k);
                spec_scan(
                    src,
                    k + 1,
                    nl,
                    acc.push(
                        TokenV { tty: TokenType::String, value: ValueV::Str(src.subrange(i + 1, k)), line: nl },
                    ),
                )
            }
        } else if is_digit(c) {
            let j = number_end(src, i + 1);
            let text = src.subrange(i, j);
            if digits_val(text) > i64::MAX {
                ScanOut::Fail("Invalid number literal: "@ + text)
            } else {
                spec_scan(
                    src,
                    j,
                    line,
                    acc.push(
                        TokenV {
                            tty: TokenType::Number,
                            value: ValueV::Num(digits_val(text) as i64),
                            line,
                        },
                    ),
                )
            }
        } else if is_alpha(c) {
            let j = ident_end(src, i + 1);
            let text = src.subrange(i, j);
            let t = ident_token(text);
            spec_scan(src, j, line, acc.push(TokenV { tty: t.tty, value: t.value, line }))
        } else if c == '\n' {
            spec_scan(src, i + 1, line + 1, acc)
        } else if c == ' ' || c == '\r' || c == '\t' {
            spec_scan(src, i + 1, line, acc)
        } else {
            ScanOut::Fail("Invalid token: "@.push(c))
        }
    }
}

#[via_fn]
proof fn spec_scan_decreases(src: Seq<char>, i: int, line: nat, acc: Seq<TokenV>) {
    if 0 <= i < src.len() {
        if src[i] == '/' && i + 1 < src.len() && src[i + 1] == '/' {
            lemma_comment_end_bounds(src, i + 2);
        }
        if src[i] == '"' {
            lemma_string_end_bounds(src, i + 1);
        }
        if is_digit(src[i]) {
            lemma_number_end_bounds(src, i + 1);
        }
        if is_alpha(src[i]) {
            lemma_ident_end_bounds(src, i + 1);
        }
    }
}

/// How a `tokenize` result relates to the model.
pub open spec fn scan_matches(
    src: Seq<char>,
    i: int,
    line: nat,
    r: Result<Vec<Token>, VeonError>,
) -> bool {
    match (r, spec_scan(src, i, line, Seq::empty())) {
        (Ok(toks), ScanOut::Toks(tv)) => tokens_view(toks@) == tv,
        (Err(e), ScanOut::Fail(msg)) => e matches VeonError::ScannerError(se) && se.tty
            == ScannerErrorType::InvalidToken && se.msg@ == msg,
        _ => false,
    }
}

/// Views of a pushed token sequence.
pub proof fn lemma_tokens_view_push(s: Seq<Token>, t: Token)
    ensures
        tokens_view(s.push(t)) =~= tokens_view(s).push(token_view(t)),
{
}

/// The string whose characters are `chars[a..b]`.
#[verifier::loop_isolation(false)]
pub fn chars_to_string(chars: &Vec<char>, a: usize, b: usize) -> (s: String)
    requires
        a <= b <= chars@.len(),
    ensures
        s@ == chars@.subrange(a as int, b as int),
{
    let mut s = String::new();
    let mut j: usize = a;
    while j < b
        invariant
            a <= j <= b,
            s@ =~= chars@.subrange(a as int, j as int),
        decreases b - j,
    {
        crate::numbers::push_char(&mut s, chars[j]);
        j = j + 1;
        proof {
            assert(s@ =~= chars@.subrange(a as int, j as int));
        }
    }
    s
}

/// Whether `c` is an ASCII digit, executably.
pub fn is_digit_exec(c: char) -> (r: bool)
    ensures
        r == is_digit(c),
{
    let u = c as u32;
    48 <= u && u <= 57
}

/// Whether `c` may start an identifier, executably.
pub fn is_alpha_exec(c: char) -> (r: bool)
    ensures
        r == is_alpha(c),
{
    let u = c as u32;
    (65 <= u && u <= 90) || (97 <= u && u <= 122) || u == 95
}

/// Whether `c` may continue an identifier, executably.
pub fn is_alpha_numeric_exec(c: char) -> (r: bool)
    ensures
        r == is_alpha_numeric(c),
{
    is_alpha_exec(c) || is_digit_exec(c)
}

/// The lexer state: the source characters and the scan position.
pub struct Scanner {
    pub source: Vec<char>,
    pub start: usize,
    pub current: usize,
    pub line: usize,
}

/// A lexical error with the given message.
fn scan_error(msg: String) -> (r: VeonError)
    ensures
        r matches VeonError::ScannerError(se) && se.tty == ScannerErrorType::InvalidToken
            && se.msg@ == msg@,
{
    VeonError::ScannerError(ScannerError { msg, tty: ScannerErrorType::InvalidToken })
}

impl Scanner {
    /// A fresh scanner over the characters of `source`.
    #[verifier::loop_isolation(false)]
    pub fn new(source: String) -> (r: Scanner)
        ensures
            r.source@ == source@,
            r.start == 0,
            r.current == 0,
            r.line == 1,
    {
        let s = source.as_str();
        let n = s.unicode_len();
        let mut chars: Vec<char> = Vec::new();
        let mut i: usize = 0;
        while i < n
            invariant
                i <= n,
                n == s@.len(),
                chars@.len() == i as int,
                forall|k: int| 0 <= k < i ==> chars@[k] == s@[k],
            decreases n - i,
        {
            let c = s.get_char(i);
            chars.push(c);
            i = i + 1;
        }
        proof {
            assert(chars@ =~= source@);
        }
        Scanner { source: chars, start: 0, current: 0, line: 1 }
    }

    /// Whether the scan position is at the end of the source.
    pub fn is_at_end(&self) -> (r: bool)
        ensures
            r == (self.current == self.source@.len()),
    {
        self.source.len() == self.current
    }

    /// Consumes and returns the character at the scan position.
    pub fn advance(&mut self) -> (c: char)
        requires
            old(self).current < old(self).source@.len(),
        ensures
            c == old(self).source@[old(self).current as int],
            final(self).current == old(self).current + 1,
            final(self).source == old(self).source,
            final(self).start == old(self).start,
            final(self).line == old(self).line,
    {
        let c = self.source[self.current];
        proof {
            vstd::std_specs::vec::axiom_spec_len(&self.source);
        }
        self.current = self.current + 1;
        c
    }

    /// Consumes the next character if it equals `expected`.
    fn match_char(&mut self, expected: char) -> (r: bool)
        requires
            old(self).current <= old(self).source@.len(),
        ensures
            r == (old(self).current < old(self).source@.len() && old(self).source@[old(
                self,
            ).current as int] == expected),
            final(self).current == if r {
                old(self).current + 1
            } else {
                old(self).current as int
            },
            final(self).source == old(self).source,
            final(self).start == old(self).start,
            final(self).line == old(self).line,
    {
        if self.is_at_end() || self.source[self.current] != expected {
            return false;
        }
        proof {
            vstd::std_specs::vec::axiom_spec_len(&self.source);
        }
        self.current = self.current + 1;
        true
    }

    /// The character at the scan position, or `'\0'` at the end.
    fn peek(&self) -> (c: char)
        requires
            self.current <= self.source@.len(),
        ensures
            c == if self.current < self.source@.len() {
                self.source@[self.current as int]
            } else {
                '\0'
            },
    {
        if self.is_at_end() {
            return '\0';
        }
        self.source[self.current]
    }

    /// A token of the given kind with no payload, on the current line.
    fn simple(&self, tty: TokenType) -> (t: Token)
        ensures
            token_view(t) == simple_tok(tty, self.line as nat),
    {
        Token { tty, value: Value::Void, line: self.line }
    }

    /// Scans the remainder of a string literal, the opening quote already
    /// consumed: the text up to the closing quote, with newlines counted
    /// into the line number, or an unterminated-string error.
    #[verifier::loop_isolation(false)]
    pub fn tokenize_string(&mut self) -> (r: Result<Token, VeonError>)
        requires
            old(self).current <= old(self).source@.len(),
            old(self).start + 1 == old(self).current,
            old(self).line + old(self).source@.len() - old(self).current <= usize::MAX,
        ensures
            final(self).source@ == old(self).source@,
            final(self).start == old(self).start,
            ({
                let src = old(self).source@;
                let i = old(self).current as int;
                let k = string_end(src, i);
                if k < src.len() {
                    &&& final(self).current == k + 1
                    &&& final(self).line == old(self).line + count_lines(src, i, k)
                    &&& r matches Ok(t) && token_view(t) == (TokenV {
                        tty: TokenType::String,
                        value: ValueV::Str(src.subrange(i, k)),
                        line: (old(self).line + count_lines(src, i, k)) as nat,
                    })
                } else {
                    r matches Err(e) && (e matches VeonError::ScannerError(se) && se.tty
                        == ScannerErrorType::InvalidToken && se.msg@ == "Unterminated string"@)
                }
            }),
    {
        let ghost src = self.source@;
        let ghost i0 = self.current as int;
        while self.peek() != '"'
            invariant
                self.source@ == src,
                self.start == old(self).start,
                old(self).current <= self.current <= src.len(),
                string_end(src, i0) == string_end(src, self.current as int),
                self.line == old(self).line + count_lines(src, i0, self.current as int),
                self.line + src.len() - self.current <= usize::MAX,
                forall|m: int| i0 <= m < self.current as int ==> src[m] != '"',
            decreases src.len() - self.current,
        {
            if self.is_at_end() {
                return Err(scan_error(String::from_str("Unterminated string")));
            }
            if self.peek() == '\n' {
                self.line = self.line + 1;
            }
            let ghost j = self.current as int;
            let _ = self.advance();
            proof {
                assert(count_lines(src, i0, j + 1) == count_lines(src, i0, j) + (if src[j] == '\n' {
                    1nat
                } else {
                    0nat
                })) by {
                    lemma_count_lines_snoc(src, i0, j);
                }
            }
        }
        // the closing quote
        let ghost k = self.current as int;
        proof {
            assert(string_end(src, k) == k);
        }
        let _ = self.advance();
        proof {
            lemma_string_end_bounds(src, i0);
        }
        let text = chars_to_string(&self.source, self.start + 1, self.current - 1);
        Ok(Token { tty: TokenType::String, value: Value::String(text), line: self.line })
    }

    /// Scans the remainder of a number literal, the first digit already
    /// consumed; fails when the value exceeds the integer range.
    #[verifier::loop_isolation(false)]
    pub fn tokenize_number(&mut self) -> (r: Result<Token, VeonError>)
        requires
            old(self).current <= old(self).source@.len(),
            old(self).start + 1 == old(self).current,
            old(self).start < old(self).source@.len(),
            is_digit(old(self).source@[old(self).start as int]),
        ensures
            final(self).source@ == old(self).source@,
            final(self).start == old(self).start,
            final(self).line == old(self).line,
            ({
                let src = old(self).source@;
                let j = number_end(src, old(self).current as int);
                let text = src.subrange(old(self).start as int, j);
                &&& final(self).current == j
                &&& if digits_val(text) > i64::MAX {
                    r matches Err(e) && (e matches VeonError::ScannerError(se) && se.tty
                        == ScannerErrorType::InvalidToken && se.msg@ == "Invalid number literal: "@
                        + text)
                } else {
                    r matches Ok(t) && token_view(t) == (TokenV {
                        tty: TokenType::Number,
                        value: ValueV::Num(digits_val(text) as i64),
                        line: old(self).line as nat,
                    })
                }
            }),
    {
        let ghost src = self.source@;
        let ghost i0 = self.current as int;
        while is_digit_exec(self.peek())
            invariant
                self.source@ == src,
                self.start == old(self).start,
                self.line == old(self).line,
                old(self).current <= self.current <= src.len(),
                number_end(src, i0) == number_end(src, self.current as int),
                forall|m: int| i0 <= m < self.current as int ==> is_digit(src[m]),
            decreases src.len() - self.current,
        {
            let _ = self.advance();
        }
        let ghost j = self.current as int;
        proof {
            assert(number_end(src, j) == j);
        }
        let text = chars_to_string(&self.source, self.start, self.current);
        match parse_digits(&self.source, self.start, self.current) {
            Some(v) => Ok(Token { tty: TokenType::Number, value: Value::Number(v), line: self.line }),
            None => {
                let mut msg = String::from_str("Invalid number literal: ");
                msg.append(text.as_str());
                Err(scan_error(msg))
            }
        }
    }

    /// Scans the remainder of an identifier, the first character already
    /// consumed, and classifies it against the keyword table.
    #[verifier::loop_isolation(false)]
    pub fn tokenize_identifier(&mut self) -> (r: Result<Token, VeonError>)
        requires
            old(self).current <= old(self).source@.len(),
            old(self).start + 1 == old(self).current,
            old(self).start < old(self).source@.len(),
        ensures
            final(self).source@ == old(self).source@,
            final(self).start == old(self).start,
            final(self).line == old(self).line,
            ({
                let src = old(self).source@;
                let j = ident_end(src, old(self).current as int);
                let text = src.subrange(old(self).start as int, j);
                let t = ident_token(text);
                &&& final(self).current == j
                &&& r matches Ok(tk) && token_view(tk) == (TokenV {
                    tty: t.tty,
                    value: t.value,
                    line: old(self).line as nat,
                })
            }),
    {
        let ghost src = self.source@;
        let ghost i0 = self.current as int;
        while is_alpha_numeric_exec(self.peek())
            invariant
                self.source@ == src,
                self.start == old(self).start,
                self.line == old(self).line,
                old(self).current <= self.current <= src.len(),
                ident_end(src, i0) == ident_end(src, self.current as int),
            decreases src.len() - self.current,
        {
            let _ = self.advance();
        }
        proof {
            assert(ident_end(src, self.current as int) == self.current as int);
        }
        let text = chars_to_string(&self.source, self.start, self.current);
        let line = self.line;
        let s = text.as_str();
        let (tty, value) = if str_eq(s, "fun") {
            (TokenType::Fun, Value::Void)
        } else if str_eq(s, "let") {
            (TokenType::Let, Value::Void)
        } else if str_eq(s, "class") {
            (TokenType::Class, Value::Void)
        } else if str_eq(s, "this") {
            (TokenType::This, Value::Void)
        } else if str_eq(s, "if") {
            (TokenType::If, Value::Void)
        } else if str_eq(s, "else") {
            (TokenType::Else, Value::Void)
        } else if str_eq(s, "while") {
            (TokenType::While, Value::Void)
        } else if str_eq(s, "for") {
            (TokenType::For, Value::Void)
        } else if str_eq(s, "return") {
            (TokenType::Return, Value::Void)
        } else if str_eq(s, "and") {
            (TokenType::And, Value::Void)
        } else if str_eq(s, "or") {
            (TokenType::Or, Value::Void)
        } else if str_eq(s, "true") {
            (TokenType::Boolean, Value::Boolean(true))
        } else if str_eq(s, "false") {
            (TokenType::Boolean, Value::Boolean(false))
        } else if str_eq(s, "null") {
            (TokenType::Null, Value::Null)
        } else {
            (TokenType::Identifier, Value::String(text))
        };
        Ok(Token { tty, value, line })
    }

    /// Scans the whole source into tokens, ending in exactly one `Eof`
    /// token, or fails with the first lexical error; exactly as the model
    /// [`spec_scan`] says.
    #[verifier::loop_isolation(false)]
    pub fn tokenize(&mut self) -> (r: Result<Vec<Token>, VeonError>)
        requires
            old(self).current <= old(self).source@.len(),
            old(self).line + old(self).source@.len() - old(self).current <= usize::MAX,
        ensures
            final(self).source@ == old(self).source@,
            scan_matches(old(self).source@, old(self).current as int, old(self).line as nat, r),
    {
        let ghost src = self.source@;
        let ghost i0 = self.current as int;
        let ghost line0 = self.line as nat;
        let mut tokens: Vec<Token> = Vec::new();
        proof {
            assert(tokens_view(tokens@) =~= Seq::<TokenV>::empty());
        }
        while !self.is_at_end()
            invariant
                self.source@ == src,
                self.current <= src.len(),
                self.line + src.len() - self.current <= usize::MAX,
                spec_scan(src, i0, line0, Seq::empty()) == spec_scan(
                    src,
                    self.current as int,
                    self.line as nat,
                    tokens_view(tokens@),
                ),
            decreases src.len() - self.current,
        {
            self.start = self.current;
            let ghost i = self.current as int;
            let ghost line = self.line as nat;
            let ghost acc = tokens_view(tokens@);
            let c = self.advance();
            if c == '(' {
                let t = self.simple(TokenType::LeftParen);
                proof {
                    lemma_tokens_view_push(tokens@, t);
                }
                tokens.push(t);
            } else if c == ')' {
                let t = self.simple(TokenType::RightParen);
                proof {
                    lemma_tokens_view_push(tokens@, t);
                }
                tokens.push(t);
            } else if c == '{' {
                let t = self.simple(TokenType::LeftBrace);
                proof {
                    lemma_tokens_view_push(tokens@, t);
                }
                tokens.push(t);
            } else if c == '}' {
                let t = self.simple(TokenType::RightBrace);
                proof {
                    lemma_tokens_view_push(tokens@, t);
                }
                tokens.push(t);
            } else if c == '[' {
                let t = self.simple(TokenType::LeftBracket);
                proof {
                    lemma_tokens_view_push(tokens@, t);
                }
                tokens.push(t);
            } else if c == ']' {
                let t = self.simple(TokenType::RightBracket);
                proof {
                    lemma_tokens_view_push(tokens@, t);
                }
                tokens.push(t);
            } else if c == ',' {
                let t = self.simple(TokenType::Comma);
                proof {
                    lemma_tokens_view_push(tokens@, t);
                }
                tokens.push(t);
            } else if c == ';' {
                let t = self.simple(TokenType::Semicolon);
                proof {
                    lemma_tokens_view_push(tokens@, t);
                }
                tokens.push(t);
            } else if c == '.' {
                let t = self.simple(TokenType::Dot);
                proof {
                    lemma_tokens_view_push(tokens@, t);
                }
                tokens.push(t);
            } else if c == '+' {
                let t = self.simple(TokenType::Plus);
                proof {
                    lemma_tokens_view_push(tokens@, t);
                }
                tokens.push(t);
            } else if c == '-' {
                let t = self.simple(TokenType::Minus);
                proof {
                    lemma_tokens_view_push(tokens@, t);
                }
                tokens.push(t);
            } else if c == '*' {
                let t = self.simple(TokenType::Star);
                proof {
                    lemma_tokens_view_push(tokens@, t);
                }
                tokens.push(t);
            } else if c == '/' {
                if self.match_char('/') {
                    while self.peek() != '\n' && !self.is_at_end()
                        invariant
                            self.source@ == src,
                            i + 2 <= self.current <= src.len(),
                            self.line as nat == line,
                            comment_end(src, i + 2) == comment_end(src, self.current as int),
                        decreases src.len() - self.current,
                    {
                        let _ = self.advance();
                    }
                    proof {
                        assert(comment_end(src, self.current as int) == self.current as int);
                    }
                } else {
                    let t = self.simple(TokenType::Slash);
                    proof {
                        lemma_tokens_view_push(tokens@, t);
                    }
                    tokens.push(t);
                }
            } else if c == '%' {
                let t = self.simple(TokenType::Modulo);
                proof {
                    lemma_tokens_view_push(tokens@, t);
                }
                tokens.push(t);
            } else if c == '?' {
                let t = self.simple(TokenType::QuestionMark);
                proof {
                    lemma_tokens_view_push(tokens@, t);
                }
                tokens.push(t);
            } else if c == '>' {
                let t = if self.match_char('=') {
                    self.simple(TokenType::GreaterEqual)
                } else {
                    self.simple(TokenType::Greater)
                };
                proof {
                    lemma_tokens_view_push(tokens@, t);
                }
                tokens.push(t);
            } else if c == '<' {
                let t = if self.match_char('=') {
                    self.simple(TokenType::LessEqual)
                } else {
                    self.simple(TokenType::Less)
                };
                proof {
                    lemma_tokens_view_push(tokens@, t);
                }
                tokens.push(t);
            } else if c == '=' {
                let t = if self.match_char('=') {
                    self.simple(TokenType::EqualEqual)
                } else {
                    self.simple(TokenType::Equal)
                };
                proof {
                    lemma_tokens_view_push(tokens@, t);
                }
                tokens.push(t);
            } else if c == '!' {
                let t = if self.match_char('=') {
                    self.simple(TokenType::NotEqual)
                } else {
                    self.simple(TokenType::Not)
                };
                proof {
                    lemma_tokens_view_push(tokens@, t);
                }
                tokens.push(t);
            } else if c == '"' {
                proof {
                    lemma_string_end_bounds(src, i + 1);
                    lemma_count_lines_le(src, i + 1, string_end(src, i + 1));
                }
                match self.tokenize_string() {
                    Ok(t) => {
                        proof {
                            lemma_tokens_view_push(tokens@, t);
                        }
                        tokens.push(t);
                    }
                    Err(e) => {
                        return Err(e);
                    }
                }
            } else if is_digit_exec(c) {
                proof {
                    lemma_number_end_bounds(src, i + 1);
                }
                match self.tokenize_number() {
                    Ok(t) => {
                        proof {
                            lemma_tokens_view_push(tokens@, t);
                        }
                        tokens.push(t);
                    }
                    Err(e) => {
                        return Err(e);
                    }
                }
            } else if is_alpha_exec(c) {
                proof {
                    lemma_ident_end_bounds(src, i + 1);
                }
                match self.tokenize_identifier() {
                    Ok(t) => {
                        proof {
                            lemma_tokens_view_push(tokens@, t);
                        }
                        tokens.push(t);
                    }
                    Err(e) => {
                        return Err(e);
                    }
                }
            } else if c == '\n' {
                self.line = self.line + 1;
            } else if c == ' ' || c == '\r' || c == '\t' {
            } else {
                let mut msg = String::from_str("Invalid token: ");
                crate::numbers::push_char(&mut msg, c);
                return Err(scan_error(msg));
            }
        }
        let t = Token { tty: TokenType::Eof, value: Value::Void, line: self.line };
        proof {
            lemma_tokens_view_push(tokens@, t);
        }
        tokens.push(t);
        Ok(tokens)
    }
}

/// A range holds no more newlines than characters.
pub proof fn lemma_count_lines_le(src: Seq<char>, i: int, j: int)
    ensures
        count_lines(src, i, j) <= if j > i {
            j - i
        } else {
            0
        },
    decreases j - i,
{
    if 0 <= i && i < j && j <= src.len() {
        lemma_count_lines_le(src, i + 1, j);
    }
}

/// One step of newline counting, at the right end of the range.
pub proof fn lemma_count_lines_snoc(src: Seq<char>, i: int, j: int)
    requires
        0 <= i <= j < src.len(),
    ensures
        count_lines(src, i, j + 1) == count_lines(src, i, j) + (if src[j] == '\n' {
            1nat
        } else {
            0nat
        }),
    decreases j - i,
{
    reveal_with_fuel(count_lines, 3);
    if i < j {
        lemma_count_lines_snoc(src, i + 1, j);
    }
}

} // verus!
