use vstd::prelude::*;
use crate::diagnostic::{DiagnosticView, ScanError};
use crate::keywords::keyword_kind;
use crate::token::{TokenType, TokenView};

verus! {

/// An ASCII decimal digit.
pub open spec fn is_digit(c: char) -> bool {
    '0' <= c && c <= '9'
}

/// An ASCII letter or the underscore.
pub open spec fn is_alpha(c: char) -> bool {
    ('a' <= c && c <= 'z') || ('A' <= c && c <= 'Z') || c == '_'
}

/// A character that may continue an identifier.
pub open spec fn is_alpha_numeric(c: char) -> bool {
    is_alpha(c) || is_digit(c)
}

/// A character that separates tokens and yields none: space, carriage return,
/// tab or line feed.
pub open spec fn is_blank(c: char) -> bool {
    c == ' ' || c == '\r' || c == '\t' || c == '\n'
}

/// The kind of the token that `c` is by itself, whatever follows it.
pub open spec fn punctuation(c: char) -> Option<TokenType> {
    if c == '(' {
        Some(TokenType::LeftParen)
    } else if c == ')' {
        Some(TokenType::RightParen)
    } else if c == '{' {
        Some(TokenType::LeftBrace)
    } else if c == '}' {
        Some(TokenType::RightBrace)
    } else if c == ',' {
        Some(TokenType::Comma)
    } else if c == '.' {
        Some(TokenType::Dot)
    } else if c == '-' {
        Some(TokenType::Minus)
    } else if c == '+' {
        Some(TokenType::Plus)
    } else if c == ';' {
        Some(TokenType::Semicolon)
    } else if c == '*' {
        Some(TokenType::Star)
    } else {
        None
    }
}

/// The kind of the operator that starts with `c`, where `c` is one of the
/// characters that form a longer operator with a `=` behind them: the longer
/// one if `with_equal`, the one that `c` is alone if not.
pub open spec fn comparison(c: char, with_equal: bool) -> Option<TokenType> {
    if c == '!' {
        Some(if with_equal { TokenType::BangEqual } else { TokenType::Bang })
    } else if c == '=' {
        Some(if with_equal { TokenType::EqualEqual } else { TokenType::Equal })
    } else if c == '<' {
        Some(if with_equal { TokenType::LessEqual } else { TokenType::Less })
    } else if c == '>' {
        Some(if with_equal { TokenType::GreaterEqual } else { TokenType::Greater })
    } else {
        None
    }
}

/// Whether the character after position `pos` exists and is `c`.
pub open spec fn followed_by(s: Seq<char>, pos: int, c: char) -> bool {
    pos + 1 < s.len() && s[pos + 1] == c
}

/// The number of line feeds in `s`.
pub open spec fn count_newlines(s: Seq<char>) -> nat
    decreases s.len(),
{
    if s.len() == 0 {
        0
    } else {
        count_newlines(s.drop_last()) + if s.last() == '\n' {
            1nat
        } else {
            0nat
        }
    }
}

/// The 1-based line of position `pos` in `s`: one more than the number of line
/// feeds before it.
pub open spec fn line_at(s: Seq<char>, pos: int) -> nat {
    1 + count_newlines(s.take(pos))
}

/// The 1-based column of position `pos` in `s`: one more than the number of
/// characters between the last line feed before `pos` and `pos`.
pub open spec fn column_at(s: Seq<char>, pos: int) -> nat
    decreases pos,
{
    if pos <= 0 || s[pos - 1] == '\n' {
        1
    } else {
        column_at(s, pos - 1) + 1
    }
}

/// A line feed raises the line by one; any other character leaves it.
pub proof fn lemma_line_after(s: Seq<char>, pos: int)
    requires
        0 <= pos < s.len(),
    ensures
        line_at(s, pos + 1) == line_at(s, pos) + if s[pos] == '\n' {
            1nat
        } else {
            0nat
        },
{
    assert(s.take(pos + 1).drop_last() == s.take(pos));
}

/// Lines and columns count from 1 and grow no faster than the position.
pub proof fn lemma_position_bounds(s: Seq<char>, pos: int)
    requires
        0 <= pos <= s.len(),
    ensures
        1 <= line_at(s, pos) <= pos + 1,
        1 <= column_at(s, pos) <= pos + 1,
    decreases pos,
{
    if pos > 0 {
        lemma_position_bounds(s, pos - 1);
        lemma_line_after(s, pos - 1);
    } else {
        assert(s.take(0).len() == 0);
    }
}

/// The position of the first `c` in `s` at or after `from`, or the length of `s`
/// if there is none.
pub open spec fn find(s: Seq<char>, from: int, c: char) -> int
    decreases s.len() - from,
{
    if from < 0 || from >= s.len() {
        s.len() as int
    } else if s[from] == c {
        from
    } else {
        find(s, from + 1, c)
    }
}

/// The position of the first character of `s` at or after `from` that is no
/// digit, or the length of `s` if only digits follow.
pub open spec fn digits_end(s: Seq<char>, from: int) -> int
    decreases s.len() - from,
{
    if from < 0 || from >= s.len() {
        s.len() as int
    } else if !is_digit(s[from]) {
        from
    } else {
        digits_end(s, from + 1)
    }
}

/// The position of the first character of `s` at or after `from` that cannot
/// continue an identifier, or the length of `s`.
pub open spec fn word_end(s: Seq<char>, from: int) -> int
    decreases s.len() - from,
{
    if from < 0 || from >= s.len() {
        s.len() as int
    } else if !is_alpha_numeric(s[from]) {
        from
    } else {
        word_end(s, from + 1)
    }
}

/// Where the number that starts at `pos` ends: after its digits, and after a
/// fraction if a `.` and at least one more digit follow them.
pub open spec fn number_end(s: Seq<char>, pos: int) -> int {
    let whole = digits_end(s, pos + 1);
    if whole < s.len() && s[whole] == '.' && whole + 1 < s.len() && is_digit(s[whole + 1]) {
        digits_end(s, whole + 1)
    } else {
        whole
    }
}

/// Where the block comment that opens at `pos` ends: after the first `*` behind
/// the opener and the one character after that `*`, whatever it is, or at the
/// end of `s` if that comes first.
pub open spec fn block_comment_end(s: Seq<char>, pos: int) -> int {
    let star = find(s, pos + 2, '*');
    if star + 2 <= s.len() {
        star + 2
    } else {
        s.len() as int
    }
}

/// The kind of an identifier-shaped text: that of the reserved word it spells,
/// or `Identifier`.
pub open spec fn word_kind(text: Seq<char>) -> TokenType {
    match keyword_kind(text) {
        Some(kind) => kind,
        None => TokenType::Identifier,
    }
}

/// What the scanner makes of one stretch of the source.
pub enum Outcome {
    /// A token of this kind.
    Token(TokenType),
    /// Blank space or a comment.
    Skip,
    /// Text that is reported and yields no token.
    Error(ScanError),
}

/// One step of the scan: where the stretch that starts at the given position
/// ends, and what it is.
pub struct Step {
    pub end: int,
    pub outcome: Outcome,
}

/// The step that the scanner takes at position `pos` of `s`.
pub open spec fn step(s: Seq<char>, pos: int) -> Step
    recommends
        0 <= pos < s.len(),
{
    let c = s[pos];
    if punctuation(c) is Some {
        Step { end: pos + 1, outcome: Outcome::Token(punctuation(c)->0) }
    } else if comparison(c, true) is Some {
        if followed_by(s, pos, '=') {
            Step { end: pos + 2, outcome: Outcome::Token(comparison(c, true)->0) }
        } else {
            Step { end: pos + 1, outcome: Outcome::Token(comparison(c, false)->0) }
        }
    } else if c == '/' {
        if followed_by(s, pos, '/') {
            Step { end: find(s, pos + 2, '\n'), outcome: Outcome::Skip }
        } else if followed_by(s, pos, '*') {
            Step { end: block_comment_end(s, pos), outcome: Outcome::Skip }
        } else {
            Step { end: pos + 1, outcome: Outcome::Token(TokenType::Slash) }
        }
    } else if is_blank(c) {
        Step { end: pos + 1, outcome: Outcome::Skip }
    } else if c == '"' {
        let close = find(s, pos + 1, '"');
        if close < s.len() {
            Step { end: close + 1, outcome: Outcome::Token(TokenType::String) }
        } else {
            Step { end: s.len() as int, outcome: Outcome::Error(ScanError::UnterminatedString) }
        }
    } else if is_digit(c) {
        Step { end: number_end(s, pos), outcome: Outcome::Token(TokenType::Number) }
    } else if is_alpha(c) {
        let end = word_end(s, pos + 1);
        Step { end, outcome: Outcome::Token(word_kind(s.subrange(pos, end))) }
    } else {
        Step { end: pos + 1, outcome: Outcome::Error(ScanError::UnexpectedCharacter) }
    }
}

/// The payload of a token of kind `kind` with the text `lexeme`: the text
/// between the quotes of a string, the whole text of a number, none otherwise.
pub open spec fn literal_of(kind: TokenType, lexeme: Seq<char>) -> Option<Seq<char>> {
    match kind {
        TokenType::String => Some(lexeme.subrange(1, lexeme.len() - 1)),
        TokenType::Number => Some(lexeme),
        _ => None,
    }
}

/// The token of kind `kind` that spans `s` from `start` to `end`.
pub open spec fn token_spanning(
    s: Seq<char>,
    start: int,
    end: int,
    kind: TokenType,
) -> TokenView {
    let lexeme = s.subrange(start, end);
    TokenView { kind, lexeme, literal: literal_of(kind, lexeme), line: line_at(s, start) }
}

/// The token that closes the scan of `s`.
pub open spec fn eof_token(s: Seq<char>) -> TokenView {
    TokenView {
        kind: TokenType::Eof,
        lexeme: Seq::empty(),
        literal: None,
        line: line_at(s, s.len() as int),
    }
}

/// The report of the error `error` in `s` at position `pos`.
pub open spec fn diagnostic_at(s: Seq<char>, pos: int, error: ScanError) -> DiagnosticView {
    DiagnosticView { error, line: line_at(s, pos), column: column_at(s, pos) }
}

/// `find` stays between `from` and the end of `s`, stops on `c` if it stops
/// before the end, and passes over no `c`.
pub proof fn lemma_find(s: Seq<char>, from: int, c: char)
    requires
        0 <= from <= s.len(),
    ensures
        from <= find(s, from, c) <= s.len(),
        find(s, from, c) < s.len() ==> s[find(s, from, c)] == c,
        forall|i: int| from <= i < find(s, from, c) ==> s[i] != c,
    decreases s.len() - from,
{
    if from < s.len() && s[from] != c {
        lemma_find(s, from + 1, c);
    }
}

/// `digits_end` stays between `from` and the end of `s`, stops on a character
/// that is no digit if it stops before the end, and passes over digits only.
pub proof fn lemma_digits_end(s: Seq<char>, from: int)
    requires
        0 <= from <= s.len(),
    ensures
        from <= digits_end(s, from) <= s.len(),
        digits_end(s, from) < s.len() ==> !is_digit(s[digits_end(s, from)]),
        forall|i: int| from <= i < digits_end(s, from) ==> is_digit(s[i]),
    decreases s.len() - from,
{
    if from < s.len() && is_digit(s[from]) {
        lemma_digits_end(s, from + 1);
    }
}

/// `word_end` stays between `from` and the end of `s`, stops on a character
/// that cannot continue an identifier if it stops before the end, and passes
/// over identifier characters only.
pub proof fn lemma_word_end(s: Seq<char>, from: int)
    requires
        0 <= from <= s.len(),
    ensures
        from <= word_end(s, from) <= s.len(),
        word_end(s, from) < s.len() ==> !is_alpha_numeric(s[word_end(s, from)]),
        forall|i: int| from <= i < word_end(s, from) ==> is_alpha_numeric(s[i]),
    decreases s.len() - from,
{
    if from < s.len() && is_alpha_numeric(s[from]) {
        lemma_word_end(s, from + 1);
    }
}

/// `find` is the position `at` if `c` stands there, or the source ends there,
/// and no `c` stands between `from` and `at`.
pub proof fn lemma_find_at(s: Seq<char>, from: int, c: char, at: int)
    requires
        0 <= from <= at <= s.len(),
        forall|i: int| from <= i < at ==> s[i] != c,
        at < s.len() ==> s[at] == c,
    ensures
        find(s, from, c) == at,
    decreases at - from,
{
    if from < at {
        lemma_find_at(s, from + 1, c, at);
    }
}

/// `digits_end` is the position `at` if only digits stand between `from` and
/// `at`, and no digit stands at `at`.
pub proof fn lemma_digits_end_at(s: Seq<char>, from: int, at: int)
    requires
        0 <= from <= at <= s.len(),
        forall|i: int| from <= i < at ==> is_digit(s[i]),
        at < s.len() ==> !is_digit(s[at]),
    ensures
        digits_end(s, from) == at,
    decreases at - from,
{
    if from < at {
        lemma_digits_end_at(s, from + 1, at);
    }
}

/// `word_end` is the position `at` if only identifier characters stand
/// between `from` and `at`, and none stands at `at`.
pub proof fn lemma_word_end_at(s: Seq<char>, from: int, at: int)
    requires
        0 <= from <= at <= s.len(),
        forall|i: int| from <= i < at ==> is_alpha_numeric(s[i]),
        at < s.len() ==> !is_alpha_numeric(s[at]),
    ensures
        word_end(s, from) == at,
    decreases at - from,
{
    if from < at {
        lemma_word_end_at(s, from + 1, at);
    }
}

/// Every step consumes at least one character and stays inside the source.
pub proof fn lemma_step_advances(s: Seq<char>, pos: int)
    requires
        0 <= pos < s.len(),
    ensures
        pos < step(s, pos).end <= s.len(),
{
    let c = s[pos];
    if c == '/' {
        if followed_by(s, pos, '/') {
            lemma_find(s, pos + 2, '\n');
        } else if followed_by(s, pos, '*') {
            lemma_find(s, pos + 2, '*');
        }
    } else if c == '"' {
        lemma_find(s, pos + 1, '"');
    } else if is_digit(c) {
        lemma_digits_end(s, pos + 1);
        let whole = digits_end(s, pos + 1);
        if whole < s.len() {
            lemma_digits_end(s, whole + 1);
        }
    } else if is_alpha(c) {
        lemma_word_end(s, pos + 1);
    }
}

/// The tokens that the scan of `s` yields from position `pos` on, in order,
/// without the closing `Eof`.
pub open spec fn tokens_from(s: Seq<char>, pos: int) -> Seq<TokenView>
    decreases s.len() - pos,
{
    if pos < 0 || pos >= s.len() {
        Seq::empty()
    } else {
        let next = step(s, pos);
        proof {
            lemma_step_advances(s, pos);
        }
        match next.outcome {
            Outcome::Token(kind) => seq![token_spanning(s, pos, next.end, kind)] + tokens_from(
                s,
                next.end,
            ),
            _ => tokens_from(s, next.end),
        }
    }
}

/// The errors that the scan of `s` reports from position `pos` on, in order.
pub open spec fn diagnostics_from(s: Seq<char>, pos: int) -> Seq<DiagnosticView>
    decreases s.len() - pos,
{
    if pos < 0 || pos >= s.len() {
        Seq::empty()
    } else {
        let next = step(s, pos);
        proof {
            lemma_step_advances(s, pos);
        }
        match next.outcome {
            Outcome::Error(error) => seq![diagnostic_at(s, pos, error)] + diagnostics_from(
                s,
                next.end,
            ),
            _ => diagnostics_from(s, next.end),
        }
    }
}

/// The positions in `s` at which the tokens of `tokens_from(s, pos)` begin, in
/// the same order.
pub open spec fn token_starts_from(s: Seq<char>, pos: int) -> Seq<int>
    decreases s.len() - pos,
{
    if pos < 0 || pos >= s.len() {
        Seq::empty()
    } else {
        let next = step(s, pos);
        proof {
            lemma_step_advances(s, pos);
        }
        match next.outcome {
            Outcome::Token(_) => seq![pos] + token_starts_from(s, next.end),
            _ => token_starts_from(s, next.end),
        }
    }
}

/// The stretches of `s` that the scan passes over from position `pos` on
/// without making a token of them: blank space, comments and rejected text.
/// The first element is what lies between `pos` and the first token, each
/// further one what lies between a token and the next, the last one what lies
/// behind the last token. Where nothing is discarded the element is empty.
pub open spec fn discarded_from(s: Seq<char>, pos: int) -> Seq<Seq<char>>
    decreases s.len() - pos,
{
    if pos < 0 || pos >= s.len() {
        seq![Seq::empty()]
    } else {
        let next = step(s, pos);
        proof {
            lemma_step_advances(s, pos);
        }
        let rest = discarded_from(s, next.end);
        match next.outcome {
            Outcome::Token(_) => seq![Seq::empty()] + rest,
            _ => seq![s.subrange(pos, next.end) + rest[0]] + rest.drop_first(),
        }
    }
}

/// The tokens of the source text `s`: those read from it, in the order in which
/// they stand in it, and one closing `Eof`.
pub open spec fn scan(s: Seq<char>) -> Seq<TokenView> {
    tokens_from(s, 0).push(eof_token(s))
}

/// The errors that the scan of the source text `s` reports, in order.
pub open spec fn scan_diagnostics(s: Seq<char>) -> Seq<DiagnosticView> {
    diagnostics_from(s, 0)
}

} // verus!
