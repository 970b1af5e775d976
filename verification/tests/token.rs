use lox_scanner::diagnostic::{Diagnostic, ScanError};
use lox_scanner::keywords::KeywordTable;
use lox_scanner::scanner::Scanner;
use lox_scanner::text::{chars_of, push_decimal};
use lox_scanner::token::{Token, TokenType};

#[test]
fn token_keeps_what_it_is_given() {
    let token = Token::new(TokenType::Number, "12.5", Some("12.5".to_string()), 7);
    assert_eq!(token.token_type(), TokenType::Number);
    assert_eq!(token.lexeme(), "12.5");
    assert_eq!(token.literal(), Some("12.5"));
    assert_eq!(token.line(), 7);
    let token = Token::new(TokenType::Eof, "", None, 1);
    assert_eq!(token.token_type(), TokenType::Eof);
    assert_eq!(token.lexeme(), "");
    assert_eq!(token.literal(), None);
    assert_eq!(token.line(), 1);
}

#[test]
fn token_can_be_cloned() {
    let token = Token::new(TokenType::String, "\"a\"", Some("a".to_string()), 3);
    let copy = token.clone();
    assert_eq!(copy.token_type(), TokenType::String);
    assert_eq!(copy.lexeme(), "\"a\"");
    assert_eq!(copy.literal(), Some("a"));
    assert_eq!(copy.line(), 3);
}

#[test]
fn render_without_literal() {
    let token = Token::new(TokenType::LeftParen, "(", None, 1);
    assert_eq!(token.render(), "type: LeftParen, lexeme: (, literal: None, line: 1");
    let token = Token::new(TokenType::Eof, "", None, 12);
    assert_eq!(token.render(), "type: Eof, lexeme: , literal: None, line: 12");
}

#[test]
fn render_with_literal() {
    let token = Token::new(TokenType::Number, "123", Some("123".to_string()), 1);
    assert_eq!(
        token.render(),
        "type: Number, lexeme: 123, literal: Some(\"123\"), line: 1"
    );
    let token = Token::new(TokenType::String, "\"a\nb\"", Some("a\nb".to_string()), 1040);
    assert_eq!(
        token.render(),
        "type: String, lexeme: \"a\nb\", literal: Some(\"a\\nb\"), line: 1040"
    );
}

#[test]
fn render_with_a_given_form() {
    let token = Token::new(TokenType::String, "\"a\"", Some("a".to_string()), 2);
    assert_eq!(
        token.render_with(Some("<a>")),
        "type: String, lexeme: \"a\", literal: Some(<a>), line: 2"
    );
    assert_eq!(
        token.render_with(None),
        "type: String, lexeme: \"a\", literal: None, line: 2"
    );
}

#[test]
fn render_matches_the_formatter() {
    let mut scanner = Scanner::new("var s = \"tab\there\";\nprint s; 3.25");
    for token in scanner.scan_tokens() {
        let expected = format!(
            "type: {:?}, lexeme: {}, literal: {:?}, line: {}",
            token.token_type(),
            token.lexeme(),
            token.literal(),
            token.line()
        );
        assert_eq!(token.render(), expected);
    }
}

#[test]
fn kind_names() {
    assert_eq!(TokenType::LeftParen.name(), "LeftParen");
    assert_eq!(TokenType::BangEqual.name(), "BangEqual");
    assert_eq!(TokenType::Identifier.name(), "Identifier");
    assert_eq!(TokenType::While.name(), "While");
    assert_eq!(TokenType::Eof.name(), "Eof");
    let all = [
        TokenType::LeftParen,
        TokenType::RightParen,
        TokenType::LeftBrace,
        TokenType::RightBrace,
        TokenType::Comma,
        TokenType::Dot,
        TokenType::Minus,
        TokenType::Plus,
        TokenType::Semicolon,
        TokenType::Slash,
        TokenType::Star,
        TokenType::Bang,
        TokenType::BangEqual,
        TokenType::Equal,
        TokenType::EqualEqual,
        TokenType::Greater,
        TokenType::GreaterEqual,
        TokenType::Less,
        TokenType::LessEqual,
        TokenType::Identifier,
        TokenType::String,
        TokenType::Number,
        TokenType::And,
        TokenType::Class,
        TokenType::Else,
        TokenType::False,
        TokenType::Fun,
        TokenType::For,
        TokenType::If,
        TokenType::Nil,
        TokenType::Or,
        TokenType::Print,
        TokenType::Return,
        TokenType::Super,
        TokenType::This,
        TokenType::True,
        TokenType::Var,
        TokenType::While,
        TokenType::Eof,
    ];
    for kind in all {
        assert_eq!(kind.name(), format!("{:?}", kind));
    }
}

#[test]
fn decimal_numerals() {
    let mut out = String::from("n=");
    push_decimal(&mut out, 0);
    assert_eq!(out, "n=0");
    let mut out = String::new();
    push_decimal(&mut out, 9);
    push_decimal(&mut out, 10);
    push_decimal(&mut out, 4096);
    assert_eq!(out, "9104096");
    let mut out = String::new();
    push_decimal(&mut out, usize::MAX);
    assert_eq!(out, usize::MAX.to_string());
}

#[test]
fn characters_of_a_text() {
    let chars = chars_of("aé\n\"z");
    assert_eq!(chars, vec!['a', 'é', '\n', '"', 'z']);
    assert!(chars_of("").is_empty());
}

#[test]
fn keyword_table() {
    let table = KeywordTable::new();
    let expected = [
        ("and", TokenType::And),
        ("class", TokenType::Class),
        ("else", TokenType::Else),
        ("false", TokenType::False),
        ("for", TokenType::For),
        ("fun", TokenType::Fun),
        ("if", TokenType::If),
        ("nil", TokenType::Nil),
        ("or", TokenType::Or),
        ("print", TokenType::Print),
        ("return", TokenType::Return),
        ("super", TokenType::Super),
        ("this", TokenType::This),
        ("true", TokenType::True),
        ("var", TokenType::Var),
        ("while", TokenType::While),
    ];
    for (word, kind) in expected {
        assert_eq!(table.get(&chars_of(word)), Some(kind));
    }
    for word in ["", "o", "orchid", "An", "AND", "whil", "whiles", "eof", "identifier"] {
        assert_eq!(table.get(&chars_of(word)), None);
    }
}

#[test]
fn diagnostic_keeps_what_it_is_given() {
    let diagnostic = Diagnostic::new(ScanError::UnterminatedString, 4, 9);
    assert_eq!(diagnostic.error(), ScanError::UnterminatedString);
    assert_eq!(diagnostic.line(), 4);
    assert_eq!(diagnostic.column(), 9);
    assert_eq!(diagnostic, Diagnostic::new(ScanError::UnterminatedString, 4, 9));
    assert_ne!(diagnostic, Diagnostic::new(ScanError::UnexpectedCharacter, 4, 9));
}

#[test]
fn error_messages() {
    assert_eq!(ScanError::UnterminatedString.message(), "Unterminated string.");
    assert_eq!(ScanError::UnexpectedCharacter.message(), "Unexpected character.");
}
