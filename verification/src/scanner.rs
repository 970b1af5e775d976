use vstd::prelude::*;
use once_cell::sync::OnceCell;
use crate::diagnostic::{Diagnostic, DiagnosticView, ScanError};
use crate::grammar::{
    column_at, diagnostic_at, diagnostics_from, digits_end, eof_token, find, is_alpha,
    is_alpha_numeric, is_digit, lemma_digits_end, lemma_find, lemma_line_after,
    lemma_position_bounds, lemma_step_advances, line_at, number_end, scan, scan_diagnostics, step,
    token_spanning, tokens_from, word_end, word_kind, Outcome,
};
use crate::keywords::{lemma_keyword_kind, table_in, KeywordTable};
use crate::text::{chars_of, string_of};
use crate::theorems::lemma_no_eof_from;
use crate::token::{text_of, Token, TokenType, TokenView};

verus! {

/// The tokens of `tokens`, each as a mathematical value.
pub open spec fn token_views(tokens: Seq<Token>) -> Seq<TokenView> {
    Seq::new(tokens.len(), |i: int| tokens[i]@)
}

/// The reports of `diagnostics`, each as a mathematical value.
pub open spec fn diagnostic_views(diagnostics: Seq<Diagnostic>) -> Seq<DiagnosticView> {
    Seq::new(diagnostics.len(), |i: int| diagnostics[i]@)
}

/// A scanner as a mathematical value: the text it reads, what it has made of it
/// so far, and its cursor.
pub struct ScannerView {
    /// The source text.
    pub source: Seq<char>,
    /// The tokens read so far.
    pub tokens: Seq<TokenView>,
    /// The errors reported so far.
    pub diagnostics: Seq<DiagnosticView>,
    /// Where the stretch that is being read begins.
    pub start: int,
    /// The next position to read.
    pub current: int,
}

/// Reads a source text into tokens.
pub struct Scanner {
    /// The characters of the source text, and one NUL behind them.
    source: Vec<char>,
    tokens: Vec<Token>,
    diagnostics: Vec<Diagnostic>,
    /// The reserved words, filled in when the first identifier is read.
    keywords: OnceCell<KeywordTable>,
    start: usize,
    start_line: usize,
    start_column: usize,
    current: usize,
    line: usize,
    column: usize,
}

impl View for Scanner {
    type V = ScannerView;

    closed spec fn view(&self) -> ScannerView {
        ScannerView {
            source: self.source@.drop_last(),
            tokens: token_views(self.tokens@),
            diagnostics: diagnostic_views(self.diagnostics@),
            start: self.start as int,
            current: self.current as int,
        }
    }
}

/// The scanner `v`, whose current stretch starts under its cursor, after the
/// one step that the source asks for there.
pub open spec fn after_step(v: ScannerView) -> ScannerView {
    let next = step(v.source, v.current);
    ScannerView {
        source: v.source,
        tokens: match next.outcome {
            Outcome::Token(kind) => v.tokens.push(
                token_spanning(v.source, v.current, next.end, kind),
            ),
            _ => v.tokens,
        },
        diagnostics: match next.outcome {
            Outcome::Error(error) => v.diagnostics.push(diagnostic_at(v.source, v.current, error)),
            _ => v.diagnostics,
        },
        start: v.current,
        current: next.end,
    }
}

impl Scanner {
    /// The state that every scanner is in: the cursor lies inside the source,
    /// the start of the current stretch is not behind it, and the lines and
    /// columns on record are those of the two positions.
    pub closed spec fn wf(&self) -> bool {
        let text = self.source@.drop_last();
        &&& self.source@.len() > 0
        &&& self.source@.last() == '\0'
        &&& self.start <= self.current <= text.len()
        &&& self.start_line == line_at(text, self.start as int)
        &&& self.start_column == column_at(text, self.start as int)
        &&& self.line == line_at(text, self.current as int)
        &&& self.column == column_at(text, self.current as int)
    }

    /// The cursor of a scanner lies inside its source.
    pub proof fn lemma_cursor_in_source(&self)
        requires
            self.wf(),
        ensures
            0 <= self@.start <= self@.current <= self@.source.len(),
    {
    }

    /// A scanner at the start of `source`, with no token read yet.
    pub fn new(source: &str) -> (scanner: Scanner)
        ensures
            scanner.wf(),
            scanner@ == (ScannerView {
                source: source@,
                tokens: Seq::empty(),
                diagnostics: Seq::empty(),
                start: 0,
                current: 0,
            }),
    {
        let mut chars = chars_of(source);
        chars.push('\0');
        let scanner = Scanner {
            source: chars,
            tokens: Vec::new(),
            diagnostics: Vec::new(),
            keywords: OnceCell::new(),
            start: 0,
            start_line: 1,
            start_column: 1,
            current: 0,
            line: 1,
            column: 1,
        };
        proof {
            assert(scanner.source@.drop_last() == source@);
            assert(source@.take(0).len() == 0);
            assert(token_views(scanner.tokens@) == Seq::<TokenView>::empty());
            assert(diagnostic_views(scanner.diagnostics@) == Seq::<DiagnosticView>::empty());
        }
        scanner
    }

    /// The tokens read so far.
    pub fn tokens(&self) -> (tokens: &Vec<Token>)
        ensures
            token_views(tokens@) == self@.tokens,
    {
        &self.tokens
    }

    /// The errors reported so far.
    pub fn diagnostics(&self) -> (diagnostics: &Vec<Diagnostic>)
        ensures
            diagnostic_views(diagnostics@) == self@.diagnostics,
    {
        &self.diagnostics
    }

    /// Whether any error has been reported so far.
    pub fn had_error(&self) -> (any: bool)
        ensures
            any == (self@.diagnostics.len() > 0),
    {
        self.diagnostics.len() > 0
    }

    /// Whether `c` may continue an identifier.
    pub fn is_alpha_numeric(c: char) -> (yes: bool)
        ensures
            yes == is_alpha_numeric(c),
    {
        Scanner::is_alpha(c) || Scanner::is_digit(c)
    }

    /// Whether `c` is an ASCII letter or the underscore.
    pub fn is_alpha(c: char) -> (yes: bool)
        ensures
            yes == is_alpha(c),
    {
        c >= 'a' && c <= 'z' || c >= 'A' && c <= 'Z' || c == '_'
    }

    /// Whether `c` is an ASCII decimal digit.
    pub fn is_digit(c: char) -> (yes: bool)
        ensures
            yes == is_digit(c),
    {
        c >= '0' && c <= '9'
    }

    /// Whether the cursor has reached the end of the source.
    fn is_at_end(&self) -> (at_end: bool)
        requires
            self.wf(),
        ensures
            at_end == (self@.current >= self@.source.len()),
            self@.source.len() < usize::MAX,
    {
        self.current >= self.source.len() - 1
    }

    /// The character under the cursor; NUL at the end of the source.
    fn peek(&self) -> (c: Option<char>)
        requires
            self.wf(),
        ensures
            c == Some(
                if self@.current < self@.source.len() {
                    self@.source[self@.current]
                } else {
                    '\0'
                },
            ),
    {
        Some(self.source[self.current])
    }

    /// The character after the one under the cursor; NUL if there is none.
    fn peek_next(&self) -> (c: Option<char>)
        requires
            self.wf(),
        ensures
            c == Some(
                if self@.current + 1 < self@.source.len() {
                    self@.source[self@.current + 1]
                } else {
                    '\0'
                },
            ),
    {
        if self.is_at_end() {
            return Some('\0');
        }
        assert(self.source@.drop_last().len() == self.source@.len() - 1);
        Some(self.source[self.current + 1])
    }

    /// Consumes the character under the cursor and returns it; at the end of
    /// the source there is none, and the cursor stays.
    fn advance(&mut self) -> (c: Option<char>)
        requires
            old(self).wf(),
        ensures
            final(self).wf(),
            old(self)@.current < old(self)@.source.len() ==> c == Some(
                old(self)@.source[old(self)@.current],
            ) && final(self)@ == (ScannerView { current: old(self)@.current + 1, ..old(self)@ }),
            old(self)@.current >= old(self)@.source.len() ==> c is None && final(self)@ == old(
                self,
            )@,
    {
        if self.is_at_end() {
            return None;
        }
        let c = self.source[self.current];
        proof {
            let text = self.source@.drop_last();
            assert(text.len() == self.source@.len() - 1);
            lemma_line_after(text, self.current as int);
            lemma_position_bounds(text, self.current as int);
        }
        self.current = self.current + 1;
        if c == '\n' {
            self.line = self.line + 1;
            self.column = 1;
        } else {
            self.column = self.column + 1;
        }
        Some(c)
    }

    /// Consumes the character under the cursor if it is `expected`.
    fn is_match(&mut self, expected: char) -> (matched: bool)
        requires
            old(self).wf(),
        ensures
            final(self).wf(),
            matched == (old(self)@.current < old(self)@.source.len() && old(self)@.source[old(
                self,
            )@.current] == expected),
            matched ==> final(self)@ == (ScannerView {
                current: old(self)@.current + 1,
                ..old(self)@
            }),
            !matched ==> final(self)@ == old(self)@,
    {
        if self.is_at_end() {
            return false;
        }
        if self.source[self.current] != expected {
            return false;
        }
        self.advance();
        true
    }

    /// Appends the token of kind `token_type` whose text is the current
    /// stretch, with the payload `literal`.
    fn add_token(&mut self, token_type: TokenType, literal: Option<String>)
        requires
            old(self).wf(),
        ensures
            final(self).wf(),
            final(self)@ == (ScannerView {
                tokens: old(self)@.tokens.push(
                    TokenView {
                        kind: token_type,
                        lexeme: old(self)@.source.subrange(old(self)@.start, old(self)@.current),
                        literal: text_of(literal),
                        line: line_at(old(self)@.source, old(self)@.start),
                    },
                ),
                ..old(self)@
            }),
    {
        let text = string_of(self.source.as_slice(), self.start, self.current);
        let token = Token::new(token_type, text.as_str(), literal, self.start_line);
        self.tokens.push(token);
        proof {
            assert(self.source@.subrange(self.start as int, self.current as int)
                == self.source@.drop_last().subrange(self.start as int, self.current as int));
            assert(token_views(self.tokens@) == token_views(old(self).tokens@).push(token@));
        }
    }

    /// Reports `error` for the current stretch.
    fn report(&mut self, error: ScanError)
        requires
            old(self).wf(),
        ensures
            final(self).wf(),
            final(self)@ == (ScannerView {
                diagnostics: old(self)@.diagnostics.push(
                    diagnostic_at(old(self)@.source, old(self)@.start, error),
                ),
                ..old(self)@
            }),
    {
        let diagnostic = Diagnostic::new(error, self.start_line, self.start_column);
        self.diagnostics.push(diagnostic);
        proof {
            assert(diagnostic_views(self.diagnostics@) == diagnostic_views(
                old(self).diagnostics@,
            ).push(diagnostic@));
        }
    }

    /// Moves the cursor to the next `stop`, or to the end of the source if
    /// there is none.
    fn advance_to(&mut self, stop: char)
        requires
            old(self).wf(),
        ensures
            final(self).wf(),
            final(self)@ == (ScannerView {
                current: find(old(self)@.source, old(self)@.current, stop),
                ..old(self)@
            }),
    {
        while self.peek() != Some(stop) && !self.is_at_end()
            invariant
                self.wf(),
                self@ == (ScannerView { current: self@.current, ..old(self)@ }),
                old(self)@.current <= self@.current <= self@.source.len(),
                find(self@.source, self@.current, stop) == find(
                    old(self)@.source,
                    old(self)@.current,
                    stop,
                ),
            decreases self@.source.len() - self@.current,
        {
            self.advance();
        }
    }

    /// Moves the cursor behind the digits that follow it.
    fn advance_digits(&mut self)
        requires
            old(self).wf(),
        ensures
            final(self).wf(),
            final(self)@ == (ScannerView {
                current: digits_end(old(self)@.source, old(self)@.current),
                ..old(self)@
            }),
    {
        while Scanner::is_digit(self.peek().unwrap())
            invariant
                self.wf(),
                self@ == (ScannerView { current: self@.current, ..old(self)@ }),
                old(self)@.current <= self@.current <= self@.source.len(),
                digits_end(self@.source, self@.current) == digits_end(
                    old(self)@.source,
                    old(self)@.current,
                ),
            decreases self@.source.len() - self@.current,
        {
            self.advance();
        }
    }

    /// Reads the rest of the identifier or reserved word whose first character
    /// has just been consumed, and appends its token.
    fn identifier(&mut self)
        requires
            old(self).wf(),
            old(self)@.current == old(self)@.start + 1,
        ensures
            final(self).wf(),
            final(self)@ == (ScannerView {
                current: word_end(old(self)@.source, old(self)@.current),
                tokens: old(self)@.tokens.push(
                    token_spanning(
                        old(self)@.source,
                        old(self)@.start,
                        word_end(old(self)@.source, old(self)@.current),
                        word_kind(
                            old(self)@.source.subrange(
                                old(self)@.start,
                                word_end(old(self)@.source, old(self)@.current),
                            ),
                        ),
                    ),
                ),
                ..old(self)@
            }),
    {
        while Scanner::is_alpha_numeric(self.peek().unwrap())
            invariant
                self.wf(),
                self@ == (ScannerView { current: self@.current, ..old(self)@ }),
                old(self)@.current <= self@.current <= self@.source.len(),
                word_end(self@.source, self@.current) == word_end(
                    old(self)@.source,
                    old(self)@.current,
                ),
            decreases self@.source.len() - self@.current,
        {
            self.advance();
        }
        let word = vstd::slice::slice_subrange(self.source.as_slice(), self.start, self.current);
        proof {
            assert(word@ == self@.source.subrange(self@.start, self@.current));
            lemma_keyword_kind(word@);
        }
        let token_type = table_in(&self.keywords).get(word);
        match token_type {
            Some(token_type) => {
                self.add_token(token_type, None);
            },
            _ => {
                self.add_token(TokenType::Identifier, None);
            },
        }
    }

    /// Reads the rest of the number whose first digit has just been consumed,
    /// and appends its token.
    fn number(&mut self)
        requires
            old(self).wf(),
            old(self)@.current == old(self)@.start + 1,
        ensures
            final(self).wf(),
            final(self)@ == (ScannerView {
                current: number_end(old(self)@.source, old(self)@.start),
                tokens: old(self)@.tokens.push(
                    token_spanning(
                        old(self)@.source,
                        old(self)@.start,
                        number_end(old(self)@.source, old(self)@.start),
                        TokenType::Number,
                    ),
                ),
                ..old(self)@
            }),
    {
        self.advance_digits();
        proof {
            lemma_digits_end(old(self)@.source, old(self)@.current);
        }
        let c = self.peek();
        match c {
            Some(c) => {
                if c == '.' && Scanner::is_digit(self.peek_next().unwrap()) {
                    self.advance();
                    self.advance_digits();
                }
            },
            _ => {},
        }
        let literal = string_of(self.source.as_slice(), self.start, self.current);
        proof {
            assert(self.source@.subrange(self.start as int, self.current as int)
                == self@.source.subrange(self@.start, self@.current));
        }
        self.add_token(TokenType::Number, Some(literal));
    }

    /// Reads the rest of the string whose opening quote has just been
    /// consumed. Appends its token if the closing quote is found, and reports
    /// the string as unterminated if the source ends first.
    fn string(&mut self)
        requires
            old(self).wf(),
            old(self)@.current == old(self)@.start + 1,
        ensures
            final(self).wf(),
            find(old(self)@.source, old(self)@.current, '"') < old(self)@.source.len()
                ==> final(self)@ == (ScannerView {
                current: find(old(self)@.source, old(self)@.current, '"') + 1,
                tokens: old(self)@.tokens.push(
                    token_spanning(
                        old(self)@.source,
                        old(self)@.start,
                        find(old(self)@.source, old(self)@.current, '"') + 1,
                        TokenType::String,
                    ),
                ),
                ..old(self)@
            }),
            find(old(self)@.source, old(self)@.current, '"') >= old(self)@.source.len()
                ==> final(self)@ == (ScannerView {
                current: old(self)@.source.len() as int,
                diagnostics: old(self)@.diagnostics.push(
                    diagnostic_at(
                        old(self)@.source,
                        old(self)@.start,
                        ScanError::UnterminatedString,
                    ),
                ),
                ..old(self)@
            }),
    {
        self.advance_to('"');
        proof {
            lemma_find(old(self)@.source, old(self)@.current, '"');
        }
        if self.is_at_end() {
            self.report(ScanError::UnterminatedString);
            return ;
        }
        self.advance();  // the closing quote
        let value = string_of(self.source.as_slice(), self.start + 1, self.current - 1);
        proof {
            let lexeme = self@.source.subrange(self@.start, self@.current);
            assert(self.source@.subrange(self.start + 1, self.current - 1) == lexeme.subrange(
                1,
                lexeme.len() - 1,
            ));
        }
        self.add_token(TokenType::String, Some(value));
    }

    /// Reads one stretch of the source, from the cursor on: a token, which is
    /// appended; blank space or a comment, which is passed over; or text that
    /// starts no token, which is reported.
    fn scan_token(&mut self)
        requires
            old(self).wf(),
            old(self)@.start == old(self)@.current,
            old(self)@.current < old(self)@.source.len(),
        ensures
            final(self).wf(),
            final(self)@ == after_step(old(self)@),
    {
        let c = self.advance().unwrap();
        match c {
            '(' => {
                self.add_token(TokenType::LeftParen, None);
            },
            ')' => {
                self.add_token(TokenType::RightParen, None);
            },
            '{' => {
                self.add_token(TokenType::LeftBrace, None);
            },
            '}' => {
                self.add_token(TokenType::RightBrace, None);
            },
            ',' => {
                self.add_token(TokenType::Comma, None);
            },
            '.' => {
                self.add_token(TokenType::Dot, None);
            },
            '-' => {
                self.add_token(TokenType::Minus, None);
            },
            '+' => {
                self.add_token(TokenType::Plus, None);
            },
            ';' => {
                self.add_token(TokenType::Semicolon, None);
            },
            '*' => {
                self.add_token(TokenType::Star, None);
            },
            '!' => {
                let token_type = match self.is_match('=') {
                    true => TokenType::BangEqual,
                    false => TokenType::Bang,
                };
                self.add_token(token_type, None)
            },
            '=' => {
                let token_type = match self.is_match('=') {
                    true => TokenType::EqualEqual,
                    false => TokenType::Equal,
                };
                self.add_token(token_type, None)
            },
            '<' => {
                let token_type = match self.is_match('=') {
                    true => TokenType::LessEqual,
                    false => TokenType::Less,
                };
                self.add_token(token_type, None)
            },
            '>' => {
                let token_type = match self.is_match('=') {
                    true => TokenType::GreaterEqual,
                    false => TokenType::Greater,
                };
                self.add_token(token_type, None)
            },
            '/' => {
                if self.is_match('/') {
                    // a comment that runs to the end of the line
                    self.advance_to('\n');
                } else if self.is_match('*') {
                    // a comment that runs to the next `*` and one character more
                    self.advance_to('*');
                    proof {
                        lemma_find(old(self)@.source, old(self)@.current + 2, '*');
                    }
                    self.advance();
                    self.advance();
                } else {
                    self.add_token(TokenType::Slash, None);
                }
            },
            ' ' => {},
            '\r' => {},
            '\t' => {},
            '\n' => {},
            '"' => {
                self.string();
            },
            _ => {
                if Scanner::is_digit(c) {
                    self.number();
                } else if Scanner::is_alpha(c) {
                    self.identifier();
                } else {
                    self.report(ScanError::UnexpectedCharacter);
                }
            },
        }
    }

    /// Reads the source from the cursor to its end and appends the tokens
    /// found, then the closing `Eof`; the errors met on the way are appended to
    /// the reports. On a new scanner the tokens are those of the whole source.
    pub fn scan_tokens(&mut self) -> (tokens: &Vec<Token>)
        requires
            old(self).wf(),
        ensures
            final(self).wf(),
            final(self)@ == (ScannerView {
                source: old(self)@.source,
                tokens: old(self)@.tokens + tokens_from(
                    old(self)@.source,
                    old(self)@.current,
                ).push(eof_token(old(self)@.source)),
                diagnostics: old(self)@.diagnostics + diagnostics_from(
                    old(self)@.source,
                    old(self)@.current,
                ),
                start: old(self)@.source.len() as int,
                current: old(self)@.source.len() as int,
            }),
            token_views(tokens@) == final(self)@.tokens,
            old(self)@.tokens.len() == 0 && old(self)@.current == 0 ==> final(self)@.tokens
                == scan(old(self)@.source),
            old(self)@.diagnostics.len() == 0 && old(self)@.current == 0
                ==> final(self)@.diagnostics == scan_diagnostics(old(self)@.source),
            final(self)@.tokens.last().kind == TokenType::Eof,
            forall|i: int|
                old(self)@.tokens.len() <= i < final(self)@.tokens.len() - 1 ==> (
                #[trigger] final(self)@.tokens[i]).kind != TokenType::Eof,
    {
        proof {
            lemma_no_eof_from(old(self)@.source, old(self)@.current);
        }
        while !self.is_at_end()
            invariant
                self.wf(),
                self@.source == old(self)@.source,
                old(self)@.current <= self@.current <= self@.source.len(),
                self@.tokens + tokens_from(self@.source, self@.current) == old(self)@.tokens
                    + tokens_from(old(self)@.source, old(self)@.current),
                self@.diagnostics + diagnostics_from(self@.source, self@.current) == old(
                    self,
                )@.diagnostics + diagnostics_from(old(self)@.source, old(self)@.current),
            decreases self@.source.len() - self@.current,
        {
            self.start = self.current;
            self.start_line = self.line;
            self.start_column = self.column;
            let ghost before = self@;
            proof {
                lemma_step_advances(before.source, before.current);
            }
            self.scan_token();
            proof {
                let next = step(before.source, before.current);
                let rest = tokens_from(before.source, next.end);
                let rest_diagnostics = diagnostics_from(before.source, next.end);
                match next.outcome {
                    Outcome::Token(kind) => {
                        let token = token_spanning(before.source, before.current, next.end, kind);
                        assert(before.tokens.push(token) + rest == before.tokens + (seq![token]
                            + rest));
                    },
                    Outcome::Error(error) => {
                        let diagnostic = diagnostic_at(before.source, before.current, error);
                        assert(before.diagnostics.push(diagnostic) + rest_diagnostics
                            == before.diagnostics + (seq![diagnostic] + rest_diagnostics));
                    },
                    Outcome::Skip => {},
                }
            }
        }
        self.start = self.current;
        self.start_line = self.line;
        self.start_column = self.column;
        let ghost source = self@.source;
        let ghost tokens_before = self@.tokens;
        self.tokens.push(Token::new(TokenType::Eof, "", None, self.line));
        proof {
            reveal_strlit("");
            assert(""@ == Seq::<char>::empty());
            assert(tokens_from(source, source.len() as int) == Seq::<TokenView>::empty());
            assert(diagnostics_from(source, source.len() as int) == Seq::<
                DiagnosticView,
            >::empty());
            assert(token_views(self.tokens@) == tokens_before.push(eof_token(source)));
            assert(old(self)@.tokens + tokens_from(old(self)@.source, old(self)@.current).push(
                eof_token(source),
            ) == (old(self)@.tokens + tokens_from(old(self)@.source, old(self)@.current)).push(
                eof_token(source),
            ));
        }
        &self.tokens
    }
}

} // verus!
