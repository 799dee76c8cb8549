//! The scanner.
//!
//! Turns source text into typed tokens with line numbers and literal
//! payloads.  The text is scanned by character position; a trailing
//! NUL sentinel marks the end of input, as a C scanner would have it.
//! Number literals are machine integers: a fractional literal or one
//! too large for the numeric type is a reported scan error.

use vstd::prelude::*;

verus! {

use vstd::string::{StringExecFns, StrSliceExecFns};

use crate::errors::Error;
use crate::tokens::{Object, Token, TokenKind};

/// The numeric value of a sequence of decimal digit characters.
pub open spec fn digits_value(s: Seq<char>) -> int
    decreases s.len(),
{
    if s.len() == 0 {
        0
    } else {
        digits_value(s.drop_last()) * 10 + (s.last() as int - '0' as int)
    }
}

/// Whether a character is a decimal digit.
pub open spec fn spec_is_digit(c: char) -> bool {
    '0' <= c && c <= '9'
}

/// The scanner's state: the text with its sentinel, the character
/// count, the start of the token being scanned, the cursor, the
/// current line, and the errors reported so far.
pub struct Lexer {
    pub input: String,
    pub length: usize,
    pub start: usize,
    pub current: usize,
    pub line: usize,
    pub had_error: bool,
    pub errors: Vec<Error>,
}

impl Lexer {
    /// The cached character count matches the text.
    pub open spec fn wf(self) -> bool {
        self.length == self.input@.len()
    }

    /// The character under the cursor; the NUL sentinel once past the
    /// end.
    pub open spec fn spec_current_char(self) -> char {
        if self.current < self.input@.len() {
            self.input@[self.current as int]
        } else {
            '\0'
        }
    }

    /// A scanner over the given text, with the sentinel appended.
    pub fn new(input: String) -> (lx: Lexer)
        ensures
            lx.wf(),
            lx.input@ == input@ + "\0"@,
            lx.start == 0,
            lx.current == 0,
            lx.line == 1,
            !lx.had_error,
            lx.errors@.len() == 0,
    {
        let mut text = input;
        text.append("\0");
        let length = text.as_str().unicode_len();
        Lexer { input: text, length, start: 0, current: 0, line: 1, had_error: false, errors: Vec::new() }
    }

    /// The character under the cursor.
    pub fn current_char(&self) -> (c: char)
        requires
            self.wf(),
        ensures
            c == self.spec_current_char(),
    {
        if self.current < self.length {
            self.input.as_str().get_char(self.current)
        } else {
            '\0'
        }
    }

    /// The character after the cursor.
    pub fn next_char(&self) -> (c: char)
        requires
            self.wf(),
        ensures
            c == (if self.current + 1 < self.input@.len() {
                self.input@[self.current + 1]
            } else {
                '\0'
            }),
    {
        if self.current < self.length && self.current + 1 < self.length {
            self.input.as_str().get_char(self.current + 1)
        } else {
            '\0'
        }
    }

    /// Consumes and returns the character under the cursor.
    pub fn advance(&mut self) -> (c: char)
        requires
            old(self).wf(),
            old(self).current < old(self).length,
        ensures
            final(self).wf(),
            c == old(self).spec_current_char(),
            final(self).current == old(self).current + 1,
            final(self).input == old(self).input,
            final(self).length == old(self).length,
            final(self).start == old(self).start,
            final(self).line == old(self).line,
            final(self).had_error == old(self).had_error,
            final(self).errors == old(self).errors,
    {
        let c = self.current_char();
        self.current = self.current + 1;
        c
    }

    /// Whether the cursor has passed the last character.
    pub fn is_at_end(&self) -> (r: bool)
        requires
            self.wf(),
        ensures
            r == (self.current >= self.input@.len()),
    {
        self.current >= self.length
    }

    /// Consumes blanks and line breaks, counting lines.
    pub fn skip_whitespace(&mut self)
        requires
            old(self).wf(),
            old(self).current <= old(self).length,
        ensures
            final(self).wf(),
            final(self).current >= old(self).current,
            final(self).current <= final(self).length,
            final(self).line >= old(self).line,
            final(self).input == old(self).input,
            final(self).length == old(self).length,
            final(self).start == old(self).start,
            final(self).had_error == old(self).had_error,
            final(self).errors == old(self).errors,
            final(self).spec_current_char() != ' ' && final(self).spec_current_char() != '\t'
                && final(self).spec_current_char() != '\r' && final(self).spec_current_char()
                != '\n',
            (old(self).spec_current_char() != ' ' && old(self).spec_current_char() != '\t'
                && old(self).spec_current_char() != '\r' && old(self).spec_current_char()
                != '\n') ==> final(self).current == old(self).current && final(self).line == old(
                self,
            ).line,
    {
        while is_space(self.current_char())
            invariant
                self.wf(),
                self.current >= old(self).current,
                (old(self).spec_current_char() != ' ' && old(self).spec_current_char() != '\t'
                    && old(self).spec_current_char() != '\r' && old(self).spec_current_char()
                    != '\n') ==> self.current == old(self).current && self.line == old(
                    self,
                ).line,
                self.current <= self.length,
                self.line >= old(self).line,
                self.input == old(self).input,
                self.length == old(self).length,
                self.start == old(self).start,
                self.had_error == old(self).had_error,
                self.errors == old(self).errors,
            decreases self.length - self.current,
        {
            if self.current_char() == '\n' && self.line < usize::MAX {
                self.line = self.line + 1;
            }
            self.advance();
        }
    }

    /// The source text between `start` and the cursor.
    fn lexeme_text(&self) -> (s: String)
        requires
            self.wf(),
            self.start <= self.current,
            self.current <= self.input@.len(),
        ensures
            s@ == self.input@.subrange(self.start as int, self.current as int),
    {
        self.input.as_str().substring_char(self.start, self.current).to_owned()
    }

    /// A token covering the scanned text, without a literal payload.
    fn add_token(&self, kind: TokenKind) -> (t: Token)
        requires
            self.wf(),
            self.start <= self.current,
            self.current <= self.input@.len(),
        ensures
            t.kind == kind,
            t.lexeme@ == self.input@.subrange(self.start as int, self.current as int),
            t.literal is None,
            t.line == self.line,
    {
        Token::new(kind, self.lexeme_text(), None, self.line)
    }

    /// A token covering the scanned text, with a literal payload.
    fn add_token_with_literal(&self, kind: TokenKind, literal: Object) -> (t: Token)
        requires
            self.wf(),
            self.start <= self.current,
            self.current <= self.input@.len(),
        ensures
            t.kind == kind,
            t.lexeme@ == self.input@.subrange(self.start as int, self.current as int),
            t.literal == Some(literal),
            t.line == self.line,
    {
        Token::new(kind, self.lexeme_text(), Some(literal), self.line)
    }

    /// Records a scan error and goes on.
    fn report(&mut self, lexeme: &str, message: &str)
        requires
            old(self).wf(),
        ensures
            final(self).wf(),
            final(self).had_error,
            final(self).errors@.len() == old(self).errors@.len() + 1,
            final(self).input == old(self).input,
            final(self).length == old(self).length,
            final(self).start == old(self).start,
            final(self).current == old(self).current,
            final(self).line == old(self).line,
    {
        self.had_error = true;
        let line = self.line;
        self.errors.push(Error::lexer_error(lexeme, line, message));
    }

    /// Scans a number literal.  The grammar admits an optional
    /// fraction, but values are machine integers, so a fractional
    /// literal — like a literal too large for the numeric type — is a
    /// reported scan error.
    fn number(&mut self) -> (r: Option<Token>)
        requires
            old(self).wf(),
            old(self).start < old(self).current,
            old(self).current <= old(self).length,
        ensures
            final(self).wf(),
            final(self).current <= final(self).length,
            final(self).current >= old(self).current,
            final(self).input == old(self).input,
            final(self).length == old(self).length,
            match r {
                Some(t) => t.kind == TokenKind::Number && (t.literal matches Some(
                    Object::Num(_),
                )),
                None => final(self).had_error,
            },
    {
        while self.current < self.length && is_digit_char(self.current_char())
            invariant
                self.wf(),
                self.start < self.current,
                self.current >= old(self).current,
                self.current <= self.length,
                self.input == old(self).input,
                self.length == old(self).length,
                self.start == old(self).start,
                self.line == old(self).line,
                self.had_error == old(self).had_error,
                self.errors == old(self).errors,
            decreases self.length - self.current,
        {
            self.advance();
        }
        if self.current_char() == '.' && is_digit_char(self.next_char()) {
            let lexeme = self.lexeme_text();
            self.report(lexeme.as_str(), "Fractional number literals are not supported.");
            return None;
        }
        let lexeme = self.lexeme_text();
        match parse_digits(lexeme.as_str()) {
            Some(value) => Some(self.add_token_with_literal(TokenKind::Number, Object::Num(value))),
            None => {
                self.report(lexeme.as_str(), "Number literal is out of range.");
                None
            },
        }
    }

    /// Scans a string literal; reaching the end of input first is a
    /// reported scan error.
    fn string(&mut self) -> (r: Option<Token>)
        requires
            old(self).wf(),
            old(self).start < old(self).current,
            old(self).current <= old(self).length,
        ensures
            final(self).wf(),
            final(self).current <= final(self).length,
            final(self).current >= old(self).current,
            final(self).input == old(self).input,
            final(self).length == old(self).length,
            match r {
                Some(t) => t.kind == TokenKind::String && (t.literal matches Some(Object::Str(_))),
                None => final(self).had_error,
            },
    {
        while !self.is_at_end() && self.current_char() != '"'
            invariant
                self.wf(),
                self.start < self.current,
                self.current >= old(self).current,
                self.current <= self.length,
                self.input == old(self).input,
                self.length == old(self).length,
                self.start == old(self).start,
                self.had_error == old(self).had_error,
                self.errors == old(self).errors,
            decreases self.length - self.current,
        {
            if self.current_char() == '\n' && self.line < usize::MAX {
                self.line = self.line + 1;
            }
            self.advance();
        }
        if self.is_at_end() {
            self.report("\"", "Unterminated string.");
            return None;
        }
        self.advance();
        let literal = self.input.as_str().substring_char(self.start + 1, self.current - 1)
            .to_owned();
        Some(self.add_token_with_literal(TokenKind::String, Object::Str(literal)))
    }

    /// Scans a comment to the end of its line.
    fn comment(&mut self) -> (r: Option<Token>)
        requires
            old(self).wf(),
            old(self).start < old(self).current,
            old(self).current <= old(self).length,
        ensures
            final(self).wf(),
            final(self).current <= final(self).length,
            final(self).current >= old(self).current,
            final(self).input == old(self).input,
            final(self).length == old(self).length,
            match r {
                Some(t) => t.kind == TokenKind::Comment,
                None => final(self).had_error,
            },
    {
        while !self.is_at_end() && self.current_char() != '\n'
            invariant
                self.wf(),
                self.start < self.current,
                self.current >= old(self).current,
                self.current <= self.length,
                self.input == old(self).input,
                self.length == old(self).length,
                self.start == old(self).start,
                self.line == old(self).line,
                self.had_error == old(self).had_error,
                self.errors == old(self).errors,
            decreases self.length - self.current,
        {
            self.advance();
        }
        Some(self.add_token(TokenKind::Comment))
    }

    /// Scans the next token.  `None` at the end of input and on a
    /// reported scan error.
    pub fn next(&mut self) -> (r: Option<Token>)
        requires
            old(self).wf(),
            old(self).current <= old(self).length,
        ensures
            final(self).wf(),
            final(self).current <= final(self).length,
            final(self).input == old(self).input,
            final(self).length == old(self).length,
            final(self).current > old(self).current || r is None,
            (r is None && !final(self).had_error) ==> final(self).current
                >= final(self).input@.len(),
    {
        if self.is_at_end() {
            return None;
        }
        self.skip_whitespace();
        self.start = self.current;
        if self.is_at_end() {
            return None;
        }
        let c = self.advance();
        match c {
            '(' => Some(self.add_token(TokenKind::LeftParen)),
            ')' => Some(self.add_token(TokenKind::RightParen)),
            '{' => Some(self.add_token(TokenKind::LeftBrace)),
            '}' => Some(self.add_token(TokenKind::RightBrace)),
            '[' => Some(self.add_token(TokenKind::LeftSquare)),
            ']' => Some(self.add_token(TokenKind::RightSquare)),
            ',' => Some(self.add_token(TokenKind::Comma)),
            '.' => Some(self.add_token(TokenKind::Dot)),
            '-' => Some(self.add_token(TokenKind::Minus)),
            '+' => Some(self.add_token(TokenKind::Plus)),
            ';' => Some(self.add_token(TokenKind::Semicolon)),
            '*' => Some(self.add_token(TokenKind::Asterisk)),
            '!' => {
                if self.current_char() == '=' {
                    self.advance();
                    Some(self.add_token(TokenKind::NotEqual))
                } else {
                    Some(self.add_token(TokenKind::Bang))
                }
            },
            '=' => {
                if self.current_char() == '=' {
                    self.advance();
                    Some(self.add_token(TokenKind::EqualEqual))
                } else {
                    Some(self.add_token(TokenKind::Equal))
                }
            },
            '<' => {
                if self.current_char() == '=' {
                    self.advance();
                    Some(self.add_token(TokenKind::LessThanEqual))
                } else {
                    Some(self.add_token(TokenKind::LessThan))
                }
            },
            '>' => {
                if self.current_char() == '=' {
                    self.advance();
                    Some(self.add_token(TokenKind::GreaterThanEqual))
                } else {
                    Some(self.add_token(TokenKind::GreaterThan))
                }
            },
            '/' => Some(self.add_token(TokenKind::Slash)),
            '#' => self.comment(),
            '"' => self.string(),
            '0' | '1' | '2' | '3' | '4' | '5' | '6' | '7' | '8' | '9' => self.number(),
            '\0' => Some(self.add_token(TokenKind::EOF)),
            _ => {
                if is_identifier_start(c) {
                    self.identifier()
                } else {
                    self.report("", "Unexpected character.");
                    None
                }
            },
        }
    }

    /// Scans an identifier or keyword.
    fn identifier(&mut self) -> (r: Option<Token>)
        requires
            old(self).wf(),
            old(self).start < old(self).current,
            old(self).current <= old(self).length,
        ensures
            final(self).wf(),
            final(self).current <= final(self).length,
            final(self).current >= old(self).current,
            final(self).input == old(self).input,
            final(self).length == old(self).length,
            r is Some,
    {
        while self.current < self.length && is_identifier_continue(self.current_char())
            invariant
                self.wf(),
                self.start < self.current,
                self.current >= old(self).current,
                self.current <= self.length,
                self.input == old(self).input,
                self.length == old(self).length,
                self.start == old(self).start,
                self.line == old(self).line,
                self.had_error == old(self).had_error,
                self.errors == old(self).errors,
            decreases self.length - self.current,
        {
            self.advance();
        }
        let text = self.lexeme_text();
        let kind = keyword_kind(text.as_str());
        match kind {
            TokenKind::Identifier => {
                Some(self.add_token_with_literal(TokenKind::Identifier, Object::Str(text)))
            },
            _ => Some(self.add_token(kind)),
        }
    }

    /// Drives the scanner to the end, collecting the tokens.
    pub fn tokens(&mut self) -> (ts: Vec<Token>)
        requires
            old(self).wf(),
            old(self).current <= old(self).length,
        ensures
            final(self).wf(),
    {
        let mut ts: Vec<Token> = Vec::new();
        loop
            invariant
                self.wf(),
                self.current <= self.length,
            decreases self.length + 1 - self.current,
        {
            let before = self.current;
            match self.next() {
                Some(t) => {
                    let is_eof = t.kind == TokenKind::EOF;
                    ts.push(t);
                    if is_eof {
                        return ts;
                    }
                    if self.current == before {
                        return ts;
                    }
                },
                None => {
                    return ts;
                },
            }
        }
    }

    /// Whether the scan reported no error.
    pub fn success(&self) -> (r: bool)
        ensures
            r == !self.had_error,
    {
        !self.had_error
    }
}

/// Whether a character is horizontal or vertical whitespace.
fn is_space(c: char) -> (r: bool)
    ensures
        r == (c == ' ' || c == '\t' || c == '\r' || c == '\n'),
{
    c == ' ' || c == '\t' || c == '\r' || c == '\n'
}

/// Whether a character is a decimal digit.
fn is_digit_char(c: char) -> (r: bool)
    ensures
        r == spec_is_digit(c),
{
    c >= '0' && c <= '9'
}

/// Whether a character can start an identifier.
fn is_identifier_start(c: char) -> (r: bool)
    ensures
        r == (('a' <= c && c <= 'z') || ('A' <= c && c <= 'Z') || c == '_'),
{
    (c >= 'a' && c <= 'z') || (c >= 'A' && c <= 'Z') || c == '_'
}

/// Whether a character can continue an identifier.
fn is_identifier_continue(c: char) -> (r: bool)
    ensures
        r == (('a' <= c && c <= 'z') || ('A' <= c && c <= 'Z') || spec_is_digit(c)),
{
    (c >= 'a' && c <= 'z') || (c >= 'A' && c <= 'Z') || (c >= '0' && c <= '9')
}

/// The keyword kind of an identifier's text, or `Identifier`.
fn keyword_kind(text: &str) -> (kind: TokenKind) {
    proof {
        reveal_strlit("and");
        reveal_strlit("class");
        reveal_strlit("else");
        reveal_strlit("false");
        reveal_strlit("for");
        reveal_strlit("fn");
        reveal_strlit("if");
        reveal_strlit("nil");
        reveal_strlit("or");
        reveal_strlit("print");
        reveal_strlit("return");
        reveal_strlit("super");
        reveal_strlit("this");
        reveal_strlit("true");
        reveal_strlit("var");
        reveal_strlit("while");
    }
    if crate::tokens::str_eq(text, "and") {
        TokenKind::And
    } else if crate::tokens::str_eq(text, "class") {
        TokenKind::Class
    } else if crate::tokens::str_eq(text, "else") {
        TokenKind::Else
    } else if crate::tokens::str_eq(text, "false") {
        TokenKind::False
    } else if crate::tokens::str_eq(text, "for") {
        TokenKind::For
    } else if crate::tokens::str_eq(text, "fn") {
        TokenKind::Fn
    } else if crate::tokens::str_eq(text, "if") {
        TokenKind::If
    } else if crate::tokens::str_eq(text, "nil") {
        TokenKind::Nil
    } else if crate::tokens::str_eq(text, "or") {
        TokenKind::Or
    } else if crate::tokens::str_eq(text, "print") {
        TokenKind::Print
    } else if crate::tokens::str_eq(text, "return") {
        TokenKind::Return
    } else if crate::tokens::str_eq(text, "super") {
        TokenKind::Super
    } else if crate::tokens::str_eq(text, "this") {
        TokenKind::This
    } else if crate::tokens::str_eq(text, "true") {
        TokenKind::True
    } else if crate::tokens::str_eq(text, "var") {
        TokenKind::Var
    } else if crate::tokens::str_eq(text, "while") {
        TokenKind::While
    } else {
        TokenKind::Identifier
    }
}

/// Reads a decimal digit string as a number; `None` when the value
/// does not fit the numeric type.
pub fn parse_digits(s: &str) -> (r: Option<i64>)
    ensures
        (forall|i: int| 0 <= i < s@.len() ==> spec_is_digit(#[trigger] s@[i])) ==> match r {
            Some(v) => v as int == digits_value(s@),
            None => digits_value(s@) > i64::MAX,
        },
{
    let ghost all_digits = forall|i: int| 0 <= i < s@.len() ==> spec_is_digit(#[trigger] s@[i]);
    let n = s.unicode_len();
    let mut acc: i64 = 0;
    let mut i: usize = 0;
    while i < n
        invariant
            n == s@.len(),
            all_digits == (forall|k: int| 0 <= k < s@.len() ==> spec_is_digit(#[trigger] s@[k])),
            i <= n,
            0 <= acc,
            all_digits ==> acc as int == digits_value(s@.take(i as int)),
        decreases n - i,
    {
        let c = s.get_char(i);
        if c < '0' || c > '9' {
            return None;
        }
        let d: i64 = (c as u32 as i64) - 48;
        if acc > (i64::MAX - d) / 10 {
            proof {
                if all_digits {
                    assert(s@.take(i + 1).drop_last() =~= s@.take(i as int));
                    assert(s@.take(i + 1).last() == s@[i as int]);
                    vstd::arithmetic::div_mod::lemma_fundamental_div_mod(i64::MAX - d, 10);
                    assert(digits_value(s@.take(i + 1)) > i64::MAX);
                    lemma_digits_value_grows(s@, i + 1);
                }
            }
            return None;
        }
        proof {
            vstd::arithmetic::div_mod::lemma_fundamental_div_mod(i64::MAX - d, 10);
        }
        acc = acc * 10 + d;
        proof {
            assert(s@.take(i + 1).drop_last() =~= s@.take(i as int));
            assert(s@.take(i + 1).last() == s@[i as int]);
        }
        i = i + 1;
    }
    proof {
        assert(s@.take(n as int) =~= s@);
    }
    Some(acc)
}

/// A digit string's value only grows as more digits follow.
proof fn lemma_digits_value_grows(s: Seq<char>, i: int)
    requires
        0 <= i <= s.len(),
        forall|k: int| 0 <= k < s.len() ==> spec_is_digit(#[trigger] s[k]),
    ensures
        digits_value(s) >= digits_value(s.take(i)),
        digits_value(s) >= 0,
    decreases s.len() - i,
{
    if i == s.len() {
        assert(s.take(i) =~= s);
        lemma_digits_value_nonneg(s);
    } else {
        lemma_digits_value_grows(s, i + 1);
        assert(s.take(i + 1).drop_last() =~= s.take(i));
        lemma_digits_value_nonneg(s.take(i));
    }
}

/// A digit string's value is never negative.
proof fn lemma_digits_value_nonneg(s: Seq<char>)
    requires
        forall|k: int| 0 <= k < s.len() ==> spec_is_digit(#[trigger] s[k]),
    ensures
        digits_value(s) >= 0,
    decreases s.len(),
{
    if s.len() > 0 {
        lemma_digits_value_nonneg(s.drop_last());
    }
}

} // verus!
