use vstd::prelude::*;
use crate::grammar::{
    comparison, count_newlines, diagnostics_from, digits_end, discarded_from, find, followed_by,
    is_alpha, is_alpha_numeric, is_digit, lemma_digits_end, lemma_digits_end_at, lemma_find,
    lemma_find_at, lemma_step_advances, lemma_word_end, lemma_word_end_at, line_at, punctuation,
    scan, scan_diagnostics, step, token_spanning, token_starts_from, tokens_from, Outcome, Step,
};
use crate::keywords::lemma_keyword_kind;
use crate::token::{TokenType, TokenView};

verus! {

/// No step yields an `Eof` token.
pub proof fn lemma_step_kind(s: Seq<char>, pos: int)
    requires
        0 <= pos < s.len(),
    ensures
        step(s, pos).outcome matches Outcome::Token(kind) ==> kind != TokenType::Eof,
{
    let c = s[pos];
    if is_alpha(c) {
        lemma_keyword_kind(s.subrange(pos, step(s, pos).end));
    }
}

/// None of the tokens read from the source is an `Eof`.
pub proof fn lemma_no_eof_from(s: Seq<char>, pos: int)
    ensures
        forall|i: int|
            0 <= i < tokens_from(s, pos).len() ==> (#[trigger] tokens_from(s, pos)[i]).kind
                != TokenType::Eof,
    decreases s.len() - pos,
{
    if 0 <= pos < s.len() {
        let next = step(s, pos);
        lemma_step_advances(s, pos);
        lemma_step_kind(s, pos);
        lemma_no_eof_from(s, next.end);
    }
}

/// The token sequence of every source text ends in `Eof`, and `Eof` stands
/// nowhere else in it.
pub proof fn lemma_eof_closes(s: Seq<char>)
    ensures
        scan(s).len() >= 1,
        scan(s).last().kind == TokenType::Eof,
        forall|i: int|
            0 <= i < scan(s).len() - 1 ==> (#[trigger] scan(s)[i]).kind != TokenType::Eof,
{
    lemma_no_eof_from(s, 0);
}

/// Where the tokens read from position `pos` on begin: one position for each
/// token; each position is inside the source and at or behind `pos`, the step
/// taken there makes the token, and a token ends before the next one begins.
pub proof fn lemma_token_starts_from(s: Seq<char>, pos: int)
    requires
        0 <= pos <= s.len(),
    ensures
        token_starts_from(s, pos).len() == tokens_from(s, pos).len(),
        forall|k: int|
            0 <= k < token_starts_from(s, pos).len() ==> {
                let start = #[trigger] token_starts_from(s, pos)[k];
                &&& pos <= start < step(s, start).end <= s.len()
                &&& step(s, start).outcome matches Outcome::Token(kind) && tokens_from(s, pos)[k]
                    == token_spanning(s, start, step(s, start).end, kind)
            },
        forall|j: int, k: int|
            0 <= j < k < token_starts_from(s, pos).len() ==> step(
                s,
                #[trigger] token_starts_from(s, pos)[j],
            ).end <= #[trigger] token_starts_from(s, pos)[k],
    decreases s.len() - pos,
{
    if pos < s.len() {
        let next = step(s, pos);
        lemma_step_advances(s, pos);
        lemma_token_starts_from(s, next.end);
        let starts = token_starts_from(s, pos);
        let rest = token_starts_from(s, next.end);
        match next.outcome {
            Outcome::Token(kind) => {
                assert(starts == seq![pos] + rest);
                assert forall|k: int| 0 <= k < starts.len() implies {
                    let start = #[trigger] starts[k];
                    &&& pos <= start < step(s, start).end <= s.len()
                    &&& step(s, start).outcome matches Outcome::Token(kind) && tokens_from(
                        s,
                        pos,
                    )[k] == token_spanning(s, start, step(s, start).end, kind)
                } by {
                    if k > 0 {
                        assert(starts[k] == rest[k - 1]);
                    }
                }
                assert forall|j: int, k: int| 0 <= j < k < starts.len() implies step(
                    s,
                    #[trigger] starts[j],
                ).end <= #[trigger] starts[k] by {
                    assert(starts[k] == rest[k - 1]);
                    if j > 0 {
                        assert(starts[j] == rest[j - 1]);
                    }
                }
            },
            _ => {},
        }
    }
}

/// Every token records the line on which its first character stands: one more
/// than the number of line feeds in the source before that character. The
/// lexeme of a token is the text of the source from that character on, tokens
/// do not overlap, and they stand in the sequence in the order in which they
/// stand in the source. The closing `Eof` records the line on which the source
/// ends.
pub proof fn lemma_token_lines(s: Seq<char>)
    ensures
        scan(s).len() == token_starts_from(s, 0).len() + 1,
        forall|k: int|
            0 <= k < token_starts_from(s, 0).len() ==> {
                let start = #[trigger] token_starts_from(s, 0)[k];
                let token = scan(s)[k];
                &&& 0 <= start < start + token.lexeme.len() <= s.len()
                &&& token.lexeme == s.subrange(start, start + token.lexeme.len())
                &&& token.line == 1 + count_newlines(s.take(start))
            },
        forall|j: int, k: int|
            0 <= j < k < token_starts_from(s, 0).len() ==> (#[trigger] token_starts_from(s, 0)[j])
                + scan(s)[j].lexeme.len() <= #[trigger] token_starts_from(s, 0)[k],
        scan(s).last().lexeme.len() == 0,
        scan(s).last().line == 1 + count_newlines(s),
{
    lemma_token_starts_from(s, 0);
    assert(s.take(s.len() as int) == s);
    let starts = token_starts_from(s, 0);
    assert forall|j: int, k: int| 0 <= j < k < starts.len() implies (#[trigger] starts[j]) + scan(
        s,
    )[j].lexeme.len() <= #[trigger] starts[k] by {
        assert(step(s, starts[j]).end <= starts[k]);
    }
}

/// `gaps` and `lexemes` in turn, joined into one text: the first of `gaps`,
/// the first of `lexemes`, the second of `gaps`, and so on to the last of
/// `gaps`, which closes the text.
pub open spec fn interleave(gaps: Seq<Seq<char>>, lexemes: Seq<Seq<char>>) -> Seq<char>
    recommends
        gaps.len() == lexemes.len() + 1,
    decreases lexemes.len(),
{
    if lexemes.len() == 0 {
        gaps[0]
    } else {
        gaps[0] + lexemes[0] + interleave(gaps.drop_first(), lexemes.drop_first())
    }
}

/// The lexemes of `tokens`, in order.
pub open spec fn lexemes_of(tokens: Seq<TokenView>) -> Seq<Seq<char>> {
    Seq::new(tokens.len(), |i: int| tokens[i].lexeme)
}

/// The lexemes of the tokens read from position `pos` on and what is
/// discarded before, between and behind them make up the source from `pos` on.
pub proof fn lemma_round_trip_from(s: Seq<char>, pos: int)
    requires
        0 <= pos <= s.len(),
    ensures
        discarded_from(s, pos).len() == tokens_from(s, pos).len() + 1,
        interleave(discarded_from(s, pos), lexemes_of(tokens_from(s, pos))) == s.subrange(
            pos,
            s.len() as int,
        ),
    decreases s.len() - pos,
{
    let gaps = discarded_from(s, pos);
    let lexemes = lexemes_of(tokens_from(s, pos));
    if pos < s.len() {
        let next = step(s, pos);
        lemma_step_advances(s, pos);
        lemma_round_trip_from(s, next.end);
        let rest_gaps = discarded_from(s, next.end);
        let rest_lexemes = lexemes_of(tokens_from(s, next.end));
        let rest_text = s.subrange(next.end, s.len() as int);
        let piece = s.subrange(pos, next.end);
        assert(piece + rest_text == s.subrange(pos, s.len() as int));
        match next.outcome {
            Outcome::Token(kind) => {
                assert(gaps.drop_first() == rest_gaps);
                assert(lexemes.drop_first() == rest_lexemes);
                assert(lexemes[0] == piece);
                assert(gaps[0] + lexemes[0] + rest_text == piece + rest_text);
            },
            _ => {
                assert(lexemes == rest_lexemes);
                assert(gaps.drop_first() == rest_gaps.drop_first());
                assert(gaps[0] == piece + rest_gaps[0]);
                if rest_lexemes.len() == 0 {
                    assert(interleave(gaps, lexemes) == piece + rest_gaps[0]);
                } else {
                    let tail = interleave(rest_gaps.drop_first(), rest_lexemes.drop_first());
                    assert((piece + rest_gaps[0]) + rest_lexemes[0] + tail == piece + (
                    rest_gaps[0] + rest_lexemes[0] + tail));
                }
            },
        }
    } else {
        assert(gaps[0] == s.subrange(pos, s.len() as int));
    }
}

/// The lexemes of the tokens of a source text, without the closing `Eof`, and
/// the blank space, comments and rejected text that the scan discards before,
/// between and behind them make up the source text again.
pub proof fn lemma_round_trip(s: Seq<char>)
    ensures
        discarded_from(s, 0).len() == scan(s).len(),
        interleave(discarded_from(s, 0), lexemes_of(scan(s).drop_last())) == s,
{
    lemma_round_trip_from(s, 0);
    assert(scan(s).drop_last() == tokens_from(s, 0));
    assert(s.subrange(0, s.len() as int) == s);
}

/// Whether `c` is a punctuation or operator character.
pub open spec fn is_operator_char(c: char) -> bool {
    punctuation(c) is Some || comparison(c, false) is Some || c == '/'
}

/// Whether `s` holds punctuation and operator characters only, and no `/` in
/// it opens a comment.
pub open spec fn is_operator_text(s: Seq<char>) -> bool {
    &&& forall|i: int| 0 <= i < s.len() ==> is_operator_char(#[trigger] s[i])
    &&& forall|i: int|
        0 <= i < s.len() && #[trigger] s[i] == '/' ==> !followed_by(s, i, '/') && !followed_by(
            s,
            i,
            '*',
        )
}

/// The number of operator runs in `s` from position `pos` on, read from left
/// to right: a `!`, `=`, `<` or `>` with a `=` directly behind it is one run
/// with that `=`, and every other character is a run by itself.
pub open spec fn operator_runs(s: Seq<char>, pos: int) -> nat
    decreases s.len() - pos,
{
    if pos < 0 || pos >= s.len() {
        0
    } else if comparison(s[pos], true) is Some && followed_by(s, pos, '=') {
        1 + operator_runs(s, pos + 2)
    } else {
        1 + operator_runs(s, pos + 1)
    }
}

/// From any position of a text of punctuation and operators, the scan yields
/// one token for each operator run, and reports nothing.
pub proof fn lemma_operator_runs_from(s: Seq<char>, pos: int)
    requires
        is_operator_text(s),
        0 <= pos <= s.len(),
    ensures
        tokens_from(s, pos).len() == operator_runs(s, pos),
        diagnostics_from(s, pos).len() == 0,
    decreases s.len() - pos,
{
    if pos < s.len() {
        let c = s[pos];
        assert(is_operator_char(c));
        lemma_step_advances(s, pos);
        lemma_operator_runs_from(s, step(s, pos).end);
    }
}

/// Of a source text that holds punctuation and operator characters only, the
/// scan yields as many tokens, the closing `Eof` aside, as the text has
/// operator runs, where a `=` behind `!`, `=`, `<` or `>` always forms the
/// longer operator with it; and it reports no error. Texts in which a `/` is
/// followed by `/` or `*` are left out: there a comment begins.
pub proof fn lemma_operator_runs(s: Seq<char>)
    requires
        is_operator_text(s),
    ensures
        scan(s).len() - 1 == operator_runs(s, 0),
        scan_diagnostics(s).len() == 0,
{
    lemma_operator_runs_from(s, 0);
}

/// The line of a position never falls as the position moves on.
pub proof fn lemma_line_monotonic(s: Seq<char>, from: int, to: int)
    requires
        0 <= from <= to <= s.len(),
    ensures
        line_at(s, from) <= line_at(s, to),
    decreases to - from,
{
    if from < to {
        lemma_line_monotonic(s, from, to - 1);
        assert(s.take(to).drop_last() == s.take(to - 1));
    }
}

/// The text of a token, taken by itself, is one token of the same kind: the
/// step at its start spans all of it.
pub proof fn lemma_lexeme_is_one_step(s: Seq<char>, pos: int)
    requires
        0 <= pos < s.len(),
        step(s, pos).outcome is Token,
    ensures
        pos < step(s, pos).end <= s.len(),
        step(s.subrange(pos, step(s, pos).end), 0) == (Step {
            end: step(s, pos).end - pos,
            outcome: step(s, pos).outcome,
        }),
{
    lemma_step_advances(s, pos);
    let end = step(s, pos).end;
    let lexeme = s.subrange(pos, end);
    let c = s[pos];
    assert(lexeme[0] == c);
    if punctuation(c) is Some {
    } else if comparison(c, true) is Some {
        if followed_by(s, pos, '=') {
            assert(lexeme[1] == '=');
        }
    } else if c == '/' {
    } else if c == '"' {
        lemma_find(s, pos + 1, '"');
        let close = find(s, pos + 1, '"');
        assert(lexeme[close - pos] == '"');
        assert forall|i: int| 1 <= i < close - pos implies lexeme[i] != '"' by {
            assert(lexeme[i] == s[pos + i]);
        }
        lemma_find_at(lexeme, 1, '"', close - pos);
    } else if is_digit(c) {
        lemma_digits_end(s, pos + 1);
        let whole = digits_end(s, pos + 1);
        if whole < s.len() && s[whole] == '.' && whole + 1 < s.len() && is_digit(s[whole + 1]) {
            lemma_digits_end(s, whole + 1);
        }
        assert(whole <= end);
        assert forall|i: int| 1 <= i < whole - pos implies is_digit(lexeme[i]) by {
            assert(lexeme[i] == s[pos + i]);
        }
        if whole < s.len() && s[whole] == '.' && whole + 1 < s.len() && is_digit(s[whole + 1]) {
            assert(lexeme[whole - pos] == '.');
            assert(lexeme[whole - pos + 1] == s[whole + 1]);
            lemma_digits_end_at(lexeme, 1, whole - pos);
            assert forall|i: int| whole - pos + 1 <= i < end - pos implies is_digit(
                lexeme[i],
            ) by {
                assert(lexeme[i] == s[pos + i]);
            }
            lemma_digits_end_at(lexeme, whole - pos + 1, end - pos);
        } else {
            lemma_digits_end_at(lexeme, 1, end - pos);
        }
    } else if is_alpha(c) {
        lemma_word_end(s, pos + 1);
        assert forall|i: int| 1 <= i < end - pos implies is_alpha_numeric(lexeme[i]) by {
            assert(lexeme[i] == s[pos + i]);
        }
        lemma_word_end_at(lexeme, 1, end - pos);
        assert(lexeme.subrange(0, end - pos) == lexeme);
    }
}

/// The lexeme of a token, scanned by itself, gives that token again: the scan
/// of the lexeme of any token of a source text starts with a token of the same
/// kind, lexeme and payload, on line 1; nothing but the closing `Eof` follows
/// it, and no error is reported. (The lexeme of `Eof` is empty, and its scan
/// is the one `Eof`.)
pub proof fn lemma_lexeme_rescans(s: Seq<char>, k: int)
    requires
        0 <= k < scan(s).len(),
    ensures
        scan(scan(s)[k].lexeme)[0] == (TokenView { line: 1, ..scan(s)[k] }),
        scan(scan(s)[k].lexeme).len() == if scan(s)[k].kind == TokenType::Eof {
            1nat
        } else {
            2nat
        },
        scan_diagnostics(scan(s)[k].lexeme).len() == 0,
{
    let token = scan(s)[k];
    let lexeme = token.lexeme;
    assert(lexeme.take(0).len() == 0);
    if k == scan(s).len() - 1 {
        assert(lexeme.len() == 0);
    } else {
        lemma_token_starts_from(s, 0);
        lemma_eof_closes(s);
        let start = token_starts_from(s, 0)[k];
        assert(token == tokens_from(s, 0)[k]);
        lemma_lexeme_is_one_step(s, start);
        let end = step(s, start).end;
        assert(lexeme == s.subrange(start, end));
        assert(lexeme.subrange(0, end - start) == lexeme);
        assert(tokens_from(lexeme, end - start).len() == 0);
        assert(diagnostics_from(lexeme, end - start).len() == 0);
        assert(tokens_from(lexeme, 0).len() == 1);
    }
}

} // verus!
