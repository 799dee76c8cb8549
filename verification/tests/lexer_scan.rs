//! The scanner on small sources.

use arclang::lexer::{parse_digits, Lexer};
use arclang::tokens::{Object, TokenKind};

fn kinds(source: &str) -> Vec<TokenKind> {
    let mut lx = Lexer::new(source.to_string());
    lx.tokens().into_iter().map(|t| t.kind).collect()
}

#[test]
fn scans_a_declaration() {
    let mut lx = Lexer::new("var x = 10;".to_string());
    let ts = lx.tokens();
    assert!(lx.success());
    let ks: Vec<TokenKind> = ts.iter().map(|t| t.kind).collect();
    assert_eq!(
        ks,
        vec![
            TokenKind::Var,
            TokenKind::Identifier,
            TokenKind::Equal,
            TokenKind::Number,
            TokenKind::Semicolon,
            TokenKind::EOF,
        ]
    );
    assert_eq!(ts[1].lexeme, "x");
    assert_eq!(ts[3].literal, Some(Object::Num(10)));
}

#[test]
fn scans_two_character_operators() {
    assert_eq!(
        kinds("== != <= >= < > ! ="),
        vec![
            TokenKind::EqualEqual,
            TokenKind::NotEqual,
            TokenKind::LessThanEqual,
            TokenKind::GreaterThanEqual,
            TokenKind::LessThan,
            TokenKind::GreaterThan,
            TokenKind::Bang,
            TokenKind::Equal,
            TokenKind::EOF,
        ]
    );
}

#[test]
fn scans_keywords_and_identifiers() {
    assert_eq!(
        kinds("class classy if iffy fn super this nil"),
        vec![
            TokenKind::Class,
            TokenKind::Identifier,
            TokenKind::If,
            TokenKind::Identifier,
            TokenKind::Fn,
            TokenKind::Super,
            TokenKind::This,
            TokenKind::Nil,
            TokenKind::EOF,
        ]
    );
}

#[test]
fn scans_a_string_literal() {
    let mut lx = Lexer::new("\"hi there\"".to_string());
    let ts = lx.tokens();
    assert!(lx.success());
    assert_eq!(ts[0].kind, TokenKind::String);
    assert_eq!(ts[0].literal, Some(Object::Str("hi there".to_string())));
}

#[test]
fn tracks_line_numbers() {
    let mut lx = Lexer::new("1\n2\n3".to_string());
    let ts = lx.tokens();
    assert_eq!(ts[0].line, 1);
    assert_eq!(ts[1].line, 2);
    assert_eq!(ts[2].line, 3);
}

#[test]
fn comment_runs_to_end_of_line() {
    assert_eq!(
        kinds("# note\n7"),
        vec![TokenKind::Comment, TokenKind::Number, TokenKind::EOF]
    );
}

#[test]
fn unterminated_string_is_reported() {
    let mut lx = Lexer::new("\"open".to_string());
    let _ = lx.tokens();
    assert!(!lx.success());
}

#[test]
fn fractional_literal_is_reported() {
    let mut lx = Lexer::new("1.5".to_string());
    let _ = lx.tokens();
    assert!(!lx.success());
}

#[test]
fn unexpected_character_is_reported() {
    let mut lx = Lexer::new("@".to_string());
    let _ = lx.tokens();
    assert!(!lx.success());
}

#[test]
fn parses_digit_strings() {
    assert_eq!(parse_digits("0"), Some(0));
    assert_eq!(parse_digits("12345"), Some(12345));
    assert_eq!(parse_digits("9223372036854775807"), Some(i64::MAX));
    assert_eq!(parse_digits("9223372036854775808"), None);
    assert_eq!(parse_digits("99999999999999999999"), None);
}
