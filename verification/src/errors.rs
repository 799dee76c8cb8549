//! Error values of the core.
//!
//! Scan, parse, runtime and host failures are data; rendering them to
//! text is a pure function, and writing the text out is left to the
//! embedding shell.  A `return` statement is not an error: statement
//! execution reports it through its own flow result, so nothing has to
//! filter non-error signals out of this type.

use vstd::prelude::*;

verus! {

use crate::numbers::{dec_rep, usize_to_string};
use crate::tokens::{Token, TokenKind};

/// A reported failure: scanning, parsing, runtime, or host.
#[derive(Debug)]
pub enum Error {
    LexerError { lexeme: String, line: usize, message: String },
    ParseError { token: Token, message: String },
    RuntimeError { token: Token, message: String },
    SystemError { message: String },
}

/// The reported text of an error, one line.
pub open spec fn error_text(e: Error) -> Seq<char> {
    match e {
        Error::LexerError { lexeme, line, message } => "[line "@ + dec_rep(line as nat)
            + "] Error "@ + lexeme@ + ": "@ + message@,
        Error::ParseError { token, message } => token_error_text(token, message@),
        Error::RuntimeError { token, message } => token_error_text(token, message@),
        Error::SystemError { message } => "System Error: "@ + message@,
    }
}

/// The reported text of an error that carries the offending token.
pub open spec fn token_error_text(token: Token, message: Seq<char>) -> Seq<char> {
    if token.kind == TokenKind::EOF {
        "[line "@ + dec_rep(token.line as nat) + "] Error at end: "@ + message
    } else {
        "[line "@ + dec_rep(token.line as nat) + "] Error at '"@ + token.lexeme@ + "': "@
            + message
    }
}

impl Error {
    pub fn lexer_error(lexeme: &str, line: usize, message: &str) -> (e: Error)
        ensures
            (e matches Error::LexerError { lexeme: l, line: n, message: m } && l@ == lexeme@
                && n == line && m@ == message@),
    {
        Error::LexerError {
            lexeme: lexeme.to_owned(),
            line,
            message: message.to_owned(),
        }
    }

    pub fn parse_error(token: &Token, message: &str) -> (e: Error)
        ensures
            (e matches Error::ParseError { token: t, message: m } && t == *token
                && m@ == message@),
    {
        Error::ParseError { token: token.clone(), message: message.to_owned() }
    }

    pub fn runtime_error(token: &Token, message: &str) -> (e: Error)
        ensures
            (e matches Error::RuntimeError { token: t, message: m } && t == *token
                && m@ == message@),
    {
        Error::RuntimeError { token: token.clone(), message: message.to_owned() }
    }

    pub fn system_error(message: &str) -> (e: Error)
        ensures
            (e matches Error::SystemError { message: m } && m@ == message@),
    {
        Error::SystemError { message: message.to_owned() }
    }

    /// The text a host should report for this error.
    pub fn render(&self) -> (s: String)
        ensures
            s@ == error_text(*self),
    {
        proof {
            reveal_strlit("[line ");
            reveal_strlit("] Error ");
            reveal_strlit(": ");
            reveal_strlit("System Error: ");
        }
        match self {
            Error::LexerError { lexeme, line, message } => {
                let mut s = "[line ".to_owned();
                s.append(usize_to_string(*line).as_str());
                s.append("] Error ");
                s.append(lexeme.as_str());
                s.append(": ");
                s.append(message.as_str());
                s
            },
            Error::ParseError { token, message } => render_token_error(token, message),
            Error::RuntimeError { token, message } => render_token_error(token, message),
            Error::SystemError { message } => {
                let mut s = "System Error: ".to_owned();
                s.append(message.as_str());
                s
            },
        }
    }
}

fn render_token_error(token: &Token, message: &String) -> (s: String)
    ensures
        s@ == token_error_text(*token, message@),
{
    proof {
        reveal_strlit("[line ");
        reveal_strlit("] Error at end: ");
        reveal_strlit("] Error at '");
        reveal_strlit("': ");
    }
    let mut s = "[line ".to_owned();
    s.append(usize_to_string(token.line).as_str());
    if token.kind == TokenKind::EOF {
        s.append("] Error at end: ");
        s.append(message.as_str());
    } else {
        s.append("] Error at '");
        s.append(token.lexeme.as_str());
        s.append("': ");
        s.append(message.as_str());
    }
    s
}

} // verus!
