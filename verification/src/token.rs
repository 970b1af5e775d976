use vstd::prelude::*;
use crate::text::{decimal, push_decimal};

verus! {

/// The kind of a token: punctuation, operator, literal class, reserved word, or
/// the marker that closes every token sequence.
#[derive(Debug, Clone, Copy, PartialEq, Eq, Structural)]
pub enum TokenType {
    // Single-character tokens.
    LeftParen,
    RightParen,
    LeftBrace,
    RightBrace,
    Comma,
    Dot,
    Minus,
    Plus,
    Semicolon,
    Slash,
    Star,
    // One or two character tokens.
    Bang,
    BangEqual,
    Equal,
    EqualEqual,
    Greater,
    GreaterEqual,
    Less,
    LessEqual,
    // Literals.
    Identifier,
    String,
    Number,
    // Keywords.
    And,
    Class,
    Else,
    False,
    Fun,
    For,
    If,
    Nil,
    Or,
    Print,
    Return,
    Super,
    This,
    True,
    Var,
    While,
    Eof,
}

/// The name of `kind`, as it is written in this library.
pub open spec fn kind_name(kind: TokenType) -> Seq<char> {
    match kind {
        TokenType::LeftParen => "LeftParen"@,
        TokenType::RightParen => "RightParen"@,
        TokenType::LeftBrace => "LeftBrace"@,
        TokenType::RightBrace => "RightBrace"@,
        TokenType::Comma => "Comma"@,
        TokenType::Dot => "Dot"@,
        TokenType::Minus => "Minus"@,
        TokenType::Plus => "Plus"@,
        TokenType::Semicolon => "Semicolon"@,
        TokenType::Slash => "Slash"@,
        TokenType::Star => "Star"@,
        TokenType::Bang => "Bang"@,
        TokenType::BangEqual => "BangEqual"@,
        TokenType::Equal => "Equal"@,
        TokenType::EqualEqual => "EqualEqual"@,
        TokenType::Greater => "Greater"@,
        TokenType::GreaterEqual => "GreaterEqual"@,
        TokenType::Less => "Less"@,
        TokenType::LessEqual => "LessEqual"@,
        TokenType::Identifier => "Identifier"@,
        TokenType::String => "String"@,
        TokenType::Number => "Number"@,
        TokenType::And => "And"@,
        TokenType::Class => "Class"@,
        TokenType::Else => "Else"@,
        TokenType::False => "False"@,
        TokenType::Fun => "Fun"@,
        TokenType::For => "For"@,
        TokenType::If => "If"@,
        TokenType::Nil => "Nil"@,
        TokenType::Or => "Or"@,
        TokenType::Print => "Print"@,
        TokenType::Return => "Return"@,
        TokenType::Super => "Super"@,
        TokenType::This => "This"@,
        TokenType::True => "True"@,
        TokenType::Var => "Var"@,
        TokenType::While => "While"@,
        TokenType::Eof => "Eof"@,
    }
}

impl TokenType {
    /// The name of this kind.
    pub fn name(self) -> (name: &'static str)
        ensures
            name@ == kind_name(self),
    {
        match self {
            TokenType::LeftParen => "LeftParen",
            TokenType::RightParen => "RightParen",
            TokenType::LeftBrace => "LeftBrace",
            TokenType::RightBrace => "RightBrace",
            TokenType::Comma => "Comma",
            TokenType::Dot => "Dot",
            TokenType::Minus => "Minus",
            TokenType::Plus => "Plus",
            TokenType::Semicolon => "Semicolon",
            TokenType::Slash => "Slash",
            TokenType::Star => "Star",
            TokenType::Bang => "Bang",
            TokenType::BangEqual => "BangEqual",
            TokenType::Equal => "Equal",
            TokenType::EqualEqual => "EqualEqual",
            TokenType::Greater => "Greater",
            TokenType::GreaterEqual => "GreaterEqual",
            TokenType::Less => "Less",
            TokenType::LessEqual => "LessEqual",
            TokenType::Identifier => "Identifier",
            TokenType::String => "String",
            TokenType::Number => "Number",
            TokenType::And => "And",
            TokenType::Class => "Class",
            TokenType::Else => "Else",
            TokenType::False => "False",
            TokenType::Fun => "Fun",
            TokenType::For => "For",
            TokenType::If => "If",
            TokenType::Nil => "Nil",
            TokenType::Or => "Or",
            TokenType::Print => "Print",
            TokenType::Return => "Return",
            TokenType::Super => "Super",
            TokenType::This => "This",
            TokenType::True => "True",
            TokenType::Var => "Var",
            TokenType::While => "While",
            TokenType::Eof => "Eof",
        }
    }
}

/// What a token is, as a mathematical value.
pub struct TokenView {
    pub kind: TokenType,
    /// The source text that the token was read from; empty for `Eof`.
    pub lexeme: Seq<char>,
    /// The payload of a string or number token.
    pub literal: Option<Seq<char>>,
    /// The 1-based line on which the token begins.
    pub line: nat,
}

/// A token: its kind, the text it was read from, the payload of a literal, and
/// the line on which it begins.
#[derive(Debug, Clone)]
pub struct Token {
    token_type: TokenType,
    lexeme: String,
    literal: Option<String>,
    line: usize,
}

/// The characters of an optional string.
pub open spec fn text_of(s: Option<String>) -> Option<Seq<char>> {
    match s {
        Some(s) => Some(s@),
        None => None,
    }
}

/// The characters of an optional string slice.
pub open spec fn slice_text_of(s: Option<&str>) -> Option<Seq<char>> {
    match s {
        Some(s) => Some(s@),
        None => None,
    }
}

/// What the standard formatter writes for the string `text` when it is asked
/// for the debugging form: the text between double quotes, with the characters
/// that do not print as themselves escaped.
pub uninterp spec fn debug_text(text: Seq<char>) -> Seq<char>;

/// The debugging form of an optional payload: that of its text.
pub open spec fn debug_literal(literal: Option<Seq<char>>) -> Option<Seq<char>> {
    match literal {
        Some(text) => Some(debug_text(text)),
        None => None,
    }
}

/// The line of text that shows `token`, where `literal` is the form in which
/// its payload is to be shown, if it has one.
pub open spec fn rendered(token: TokenView, literal: Option<Seq<char>>) -> Seq<char> {
    "type: "@ + kind_name(token.kind) + ", lexeme: "@ + token.lexeme + ", literal: "@ + (
    match literal {
        Some(shown) => "Some("@ + shown + ")"@,
        None => "None"@,
    }) + ", line: "@ + decimal(token.line)
}

/// `format!` with `{:?}` on a string slice: the debugging form of `text`, as
/// the standard formatter writes it.
#[verifier::external_body]
fn debug_quote(text: &str) -> (quoted: String)
    ensures
        quoted@ == debug_text(text@),
{
    format!("{:?}", text)
}

impl View for Token {
    type V = TokenView;

    closed spec fn view(&self) -> TokenView {
        TokenView {
            kind: self.token_type,
            lexeme: self.lexeme@,
            literal: text_of(self.literal),
            line: self.line as nat,
        }
    }
}

impl Token {
    /// The token of kind `token_type` with the text `lexeme` and the payload
    /// `literal`, which begins on line `line`.
    pub fn new(token_type: TokenType, lexeme: &str, literal: Option<String>, line: usize) -> (token:
        Token)
        ensures
            token@ == (TokenView {
                kind: token_type,
                lexeme: lexeme@,
                literal: text_of(literal),
                line: line as nat,
            }),
    {
        Token { token_type, lexeme: lexeme.to_owned(), literal, line }
    }

    /// The kind of this token.
    pub fn token_type(&self) -> (kind: TokenType)
        ensures
            kind == self@.kind,
    {
        self.token_type
    }

    /// The source text that this token was read from.
    pub fn lexeme(&self) -> (lexeme: &str)
        ensures
            lexeme@ == self@.lexeme,
    {
        self.lexeme.as_str()
    }

    /// The payload of this token, if it is a string or a number.
    pub fn literal(&self) -> (literal: Option<&str>)
        ensures
            slice_text_of(literal) == self@.literal,
    {
        match &self.literal {
            Some(text) => Some(text.as_str()),
            None => None,
        }
    }

    /// The line on which this token begins.
    pub fn line(&self) -> (line: usize)
        ensures
            line as nat == self@.line,
    {
        self.line
    }

    /// The line of text that shows this token, with its payload shown as
    /// `literal`.
    pub fn render_with(&self, literal: Option<&str>) -> (text: String)
        ensures
            text@ == rendered(self@, slice_text_of(literal)),
    {
        let mut text = String::new();
        text.append("type: ");
        text.append(self.token_type.name());
        text.append(", lexeme: ");
        text.append(self.lexeme.as_str());
        text.append(", literal: ");
        match literal {
            Some(shown) => {
                text.append("Some(");
                text.append(shown);
                text.append(")");
            },
            None => {
                text.append("None");
            },
        }
        text.append(", line: ");
        push_decimal(&mut text, self.line);
        proof {
            let head = "type: "@ + kind_name(self@.kind) + ", lexeme: "@ + self@.lexeme
                + ", literal: "@;
            match literal {
                Some(shown) => {
                    assert(head + "Some("@ + shown@ + ")"@ == head + ("Some("@ + shown@ + ")"@));
                },
                None => {},
            }
            assert(text@ == rendered(self@, slice_text_of(literal)));
        }
        text
    }

    /// The line of text that shows this token: its kind, its lexeme, its
    /// payload in the debugging form, and its line.
    pub fn render(&self) -> (text: String)
        ensures
            text@ == rendered(self@, debug_literal(self@.literal)),
    {
        match &self.literal {
            Some(literal) => {
                let quoted = debug_quote(literal.as_str());
                self.render_with(Some(quoted.as_str()))
            },
            None => self.render_with(None),
        }
    }
}

} // verus!
