//! Laws of the lexical grammar: what holds of the tokens and reports of every
//! source text.
use vstd::prelude::*;
use crate::chars::{alpha, alphanumeric, blank, digit};
use crate::grammar::{
    count_newlines, end_token, has_at, has_fraction, lemma_run_end, lemma_step_advances,
    line_number, number_end, number_value, operator_kind, reports_from, run_end, scan,
    scan_reports, scan_starts, starts_from, step, step_starts, step_tokens, tokens_from,
    CharClass, Outcome, Step,
};
use crate::lox::ReportView;
use crate::scanner::Scanner;
use crate::token::{keyword_kind, word_kind, TokenKind, TokenView};

verus! {

/// The token lies in the text at `start`: its lexeme is the text from there
/// on, and its line is the line of `start`.
pub open spec fn lies_at(src: Seq<char>, start: int, token: TokenView) -> bool {
    &&& 0 <= start
    &&& start + token.lexeme.len() <= src.len()
    &&& token.lexeme == src.subrange(start, start + token.lexeme.len())
    &&& token.line == line_number(src, start)
}

/// The text from `from` up to `to` holds nothing but whitespace and whole
/// comments, each comment running from its two slashes up to the next newline
/// or the end of the text.
pub open spec fn only_trivia(src: Seq<char>, from: int, to: int) -> bool
    decreases to - from,
    via only_trivia_decreases
{
    if from >= to {
        from == to
    } else if has_at(src, from, '/') && has_at(src, from + 1, '/') {
        let end = run_end(src, from + 2, CharClass::CommentBody);
        end <= to && only_trivia(src, end, to)
    } else {
        0 <= from < src.len() && blank(src[from]) && only_trivia(src, from + 1, to)
    }
}

#[via_fn]
proof fn only_trivia_decreases(src: Seq<char>, from: int, to: int) {
    if has_at(src, from, '/') && has_at(src, from + 1, '/') {
        lemma_run_end(src, from + 2, CharClass::CommentBody);
    }
}

/// No token that a step appends is a closing token, and none is empty.
proof fn lemma_step_token(src: Seq<char>, pos: int)
    requires
        0 <= pos < src.len(),
    ensures
        step_tokens(src, pos).len() == step_starts(src, pos).len() <= 1,
        step_tokens(src, pos).len() == 1 ==> {
            &&& step_starts(src, pos)[0] == pos
            &&& step_tokens(src, pos)[0].kind != TokenKind::Eof
            &&& step_tokens(src, pos)[0].lexeme.len() == step(src, pos).end - pos
            &&& lies_at(src, pos, step_tokens(src, pos)[0])
        },
{
    lemma_step_advances(src, pos);
}

/// Where the tokens of a scan lie: each in the text at its start, one behind
/// the other, the closing token last and at the end of the text.
proof fn lemma_spans(src: Seq<char>, pos: int)
    requires
        0 <= pos <= src.len(),
    ensures
        starts_from(src, pos).len() == tokens_from(src, pos).len() >= 1,
        tokens_from(src, pos).last() == end_token(src),
        starts_from(src, pos).last() == src.len(),
        forall|i: int|
            0 <= i < tokens_from(src, pos).len() ==> pos <= starts_from(src, pos)[i] && lies_at(
                src,
                starts_from(src, pos)[i],
                #[trigger] tokens_from(src, pos)[i],
            ),
        forall|i: int|
            0 <= i < tokens_from(src, pos).len() - 1 ==> (#[trigger] tokens_from(src, pos)[i]).kind
                != TokenKind::Eof && tokens_from(src, pos)[i].lexeme.len() > 0,
        forall|i: int, j: int|
            0 <= i < j < tokens_from(src, pos).len() ==> (#[trigger] starts_from(src, pos)[i])
                + tokens_from(src, pos)[i].lexeme.len() <= #[trigger] starts_from(src, pos)[j],
    decreases src.len() - pos,
{
    if pos < src.len() {
        lemma_step_advances(src, pos);
        lemma_step_token(src, pos);
        lemma_spans(src, step(src, pos).end);
    } else {
        assert(end_token(src).lexeme == src.subrange(pos, pos));
    }
}

/// Newlines are only ever counted up.
proof fn lemma_newlines_monotone(src: Seq<char>, from: int, to: int)
    requires
        from <= to,
    ensures
        count_newlines(src, from) <= count_newlines(src, to),
        line_number(src, from) <= line_number(src, to),
    decreases to - from,
{
    if from < to {
        lemma_newlines_monotone(src, from, to - 1);
    }
}

/// Every scan ends with the closing token, and holds no other: the tokens of a
/// source text are never empty, the last one is the closing token, with an
/// empty lexeme and the line of the end of the text, and no token before it is
/// a closing token.
pub proof fn law_scan_ends_with_one_closing_token(src: Seq<char>)
    ensures
        scan(src).len() >= 1,
        scan(src).last() == end_token(src),
        forall|i: int| 0 <= i < scan(src).len() - 1 ==> (#[trigger] scan(src)[i]).kind
            != TokenKind::Eof,
{
    lemma_spans(src, 0);
}

/// Every token is a piece of the source text: its lexeme is the text at its
/// start, the tokens follow one another in the text without overlap, and every
/// token but the closing one has a lexeme that is not empty.
pub proof fn law_tokens_lie_in_source_order(src: Seq<char>)
    ensures
        scan_starts(src).len() == scan(src).len(),
        scan_starts(src).last() == src.len(),
        forall|i: int|
            0 <= i < scan(src).len() ==> lies_at(src, scan_starts(src)[i], #[trigger] scan(src)[i]),
        forall|i: int|
            0 <= i < scan(src).len() - 1 ==> (#[trigger] scan(src)[i]).lexeme.len() > 0,
        forall|i: int, j: int|
            0 <= i < j < scan(src).len() ==> (#[trigger] scan_starts(src)[i]) + scan(
                src,
            )[i].lexeme.len() <= #[trigger] scan_starts(src)[j],
{
    lemma_spans(src, 0);
}

/// Lines follow the newlines of the source: the line of a token is one more
/// than the count of newlines before its start, so each newline, be it
/// between tokens, in a comment or in a string literal, raises by one the line
/// of every token that starts behind it; and along the tokens the lines never
/// go down.
pub proof fn law_lines_count_newlines(src: Seq<char>)
    ensures
        scan_starts(src).len() == scan(src).len(),
        forall|i: int|
            0 <= i < scan(src).len() ==> (#[trigger] scan(src)[i]).line == 1 + count_newlines(
                src,
                scan_starts(src)[i],
            ),
        forall|i: int, j: int|
            0 <= i <= j < scan(src).len() ==> (#[trigger] scan(src)[i]).line <= (#[trigger] scan(
                src,
            )[j]).line,
        forall|i: int| 0 <= i < scan(src).len() ==> (#[trigger] scan(src)[i]).line >= 1,
{
    lemma_spans(src, 0);
    let tokens = scan(src);
    let starts = scan_starts(src);
    assert forall|i: int, j: int| 0 <= i <= j < tokens.len() implies (#[trigger] tokens[i]).line
        <= (#[trigger] tokens[j]).line by {
        lemma_newlines_monotone(src, starts[i], starts[j]);
    }
}

/// Trivia behind trivia is trivia.
proof fn lemma_trivia_joins(src: Seq<char>, from: int, mid: int, to: int)
    requires
        0 <= from,
        only_trivia(src, from, mid),
        only_trivia(src, mid, to),
    ensures
        only_trivia(src, from, to),
    decreases mid - from,
{
    if from < mid {
        if has_at(src, from, '/') && has_at(src, from + 1, '/') {
            let end = run_end(src, from + 2, CharClass::CommentBody);
            lemma_run_end(src, from + 2, CharClass::CommentBody);
            lemma_trivia_joins(src, end, mid, to);
            lemma_trivia_length(src, mid, to);
        } else {
            lemma_trivia_joins(src, from + 1, mid, to);
            lemma_trivia_length(src, mid, to);
        }
    }
}

/// A stretch of trivia does not run backwards.
proof fn lemma_trivia_length(src: Seq<char>, from: int, to: int)
    requires
        only_trivia(src, from, to),
    ensures
        from <= to,
{
}

/// What the scanner skips between tokens is whitespace and comments, as long
/// as it reports nothing.
proof fn lemma_gaps(src: Seq<char>, gap: int, pos: int)
    requires
        0 <= gap <= pos <= src.len(),
        only_trivia(src, gap, pos),
        reports_from(src, pos).len() == 0,
    ensures
        only_trivia(src, gap, starts_from(src, pos)[0]),
        forall|i: int|
            0 <= i < tokens_from(src, pos).len() - 1 ==> only_trivia(
                src,
                starts_from(src, pos)[i] + (#[trigger] tokens_from(src, pos)[i]).lexeme.len(),
                starts_from(src, pos)[i + 1],
            ),
    decreases src.len() - pos,
{
    lemma_spans(src, pos);
    if pos < src.len() {
        lemma_step_advances(src, pos);
        lemma_step_token(src, pos);
        let end = step(src, pos).end;
        lemma_spans(src, end);
        match step(src, pos).outcome {
            Outcome::Token(_) => {
                lemma_gaps(src, end, end);
            },
            Outcome::Skip => {
                lemma_trivia_joins(src, gap, pos, end);
                lemma_gaps(src, gap, end);
            },
            Outcome::Error(_) => {},
        }
    }
}

/// The lexemes, in order, are the source text without its whitespace and
/// comments: where scanning reports no error, the text before the first
/// token, the text between the end of each token and the start of the next,
/// and the text behind the last token hold only whitespace and comments. (The
/// closing token starts at the end of the text, and every lexeme is the text
/// at its start: see `law_tokens_lie_in_source_order`.)
pub proof fn law_lexemes_rebuild_source(src: Seq<char>)
    requires
        scan_reports(src).len() == 0,
    ensures
        scan_starts(src).len() == scan(src).len() >= 1,
        scan_starts(src).last() == src.len(),
        only_trivia(src, 0, scan_starts(src)[0]),
        forall|i: int|
            0 <= i < scan(src).len() - 1 ==> only_trivia(
                src,
                scan_starts(src)[i] + (#[trigger] scan(src)[i]).lexeme.len(),
                scan_starts(src)[i + 1],
            ),
{
    lemma_spans(src, 0);
    lemma_gaps(src, 0, 0);
}

/// The longest match wins. An operator with an equals sign behind it is one
/// token of two characters. Two slashes start a comment, which yields no
/// token and ends only before a newline or with the text. A number and a name
/// end only where the next character cannot continue them, and a number
/// without a point ends only where no fraction follows.
pub proof fn law_longest_match(src: Seq<char>, pos: int)
    requires
        0 <= pos < src.len(),
    ensures
        operator_kind(src[pos], false) is Some && has_at(src, pos + 1, '=') ==> step(src, pos)
            == (Step { end: pos + 2, outcome: Outcome::Token(operator_kind(src[pos], true)->0) }),
        has_at(src, pos, '/') && has_at(src, pos + 1, '/') ==> {
            &&& step(src, pos).outcome is Skip
            &&& forall|i: int| pos + 2 <= i < step(src, pos).end ==> #[trigger] src[i] != '\n'
            &&& step(src, pos).end == src.len() || src[step(src, pos).end] == '\n'
        },
        digit(src[pos]) ==> {
            &&& step(src, pos).outcome is Token
            &&& step(src, pos).end == src.len() || !digit(src[step(src, pos).end])
            &&& (forall|i: int| pos <= i < step(src, pos).end ==> #[trigger] src[i] != '.')
                ==> !has_fraction(src, step(src, pos).end)
        },
        alpha(src[pos]) ==> {
            &&& step(src, pos).outcome is Token
            &&& step(src, pos).end == src.len() || !alphanumeric(src[step(src, pos).end])
        },
{
    if has_at(src, pos + 1, '/') {
        lemma_run_end(src, pos + 2, CharClass::CommentBody);
    }
    lemma_run_end(src, pos, CharClass::Digit);
    let whole_end = run_end(src, pos, CharClass::Digit);
    if has_fraction(src, whole_end) {
        lemma_run_end(src, whole_end + 1, CharClass::Digit);
    }
    lemma_run_end(src, pos, CharClass::Word);
}

/// A number literal is a decimal: every digit is below ten, there is a digit
/// before the point, and the lexeme holds the digits and, where digits stand
/// behind a point, the point.
pub proof fn law_number_is_decimal(src: Seq<char>, pos: int)
    requires
        0 <= pos < src.len(),
        digit(src[pos]),
    ensures
        number_value(src, pos).wf(),
        number_end(src, pos) - pos == number_value(src, pos).digits.len() + if number_value(
            src,
            pos,
        ).scale > 0 {
            1int
        } else {
            0int
        },
{
    lemma_run_end(src, pos, CharClass::Digit);
    let whole_end = run_end(src, pos, CharClass::Digit);
    if has_fraction(src, whole_end) {
        lemma_run_end(src, whole_end + 1, CharClass::Digit);
    }
}

/// A reserved word is matched by a whole name only: a name that goes on
/// behind a reserved word is not reserved.
pub proof fn law_reserved_word_is_a_whole_name(word: Seq<char>, more: Seq<char>)
    requires
        keyword_kind(word) is Some,
        more.len() > 0,
    ensures
        keyword_kind(word + more) is None,
        word_kind(word + more) == TokenKind::Identifier,
{
    reveal_strlit("and");
    reveal_strlit("class");
    reveal_strlit("else");
    reveal_strlit("false");
    reveal_strlit("for");
    reveal_strlit("fun");
    reveal_strlit("if");
    reveal_strlit("nil");
    reveal_strlit("or");
    reveal_strlit("print");
    reveal_strlit("return");
    reveal_strlit("super");
    reveal_strlit("this");
    reveal_strlit("true");
    reveal_strlit("var");
    reveal_strlit("while");
    let name = word + more;
    assert(name[0] == word[0]);
    if word.len() > 2 {
        assert(name[2] == word[2]);
    }
}

/// Scanning is a function of the source text. Take two new scanners for the
/// same text and run each to the end, with a sink of its own: they hold the
/// same tokens, those of the text, and the sinks were handed the same
/// reports, those of the text, whatever the sinks held before.
pub proof fn law_same_source_same_scan(
    source: Seq<char>,
    first: (Scanner, Scanner),
    first_sink: (Seq<ReportView>, Seq<ReportView>),
    second: (Scanner, Scanner),
    second_sink: (Seq<ReportView>, Seq<ReportView>),
)
    requires
        first.0.is_new_for(source),
        second.0.is_new_for(source),
        first.0.scans_to(first_sink.0, &first.1, first_sink.1),
        second.0.scans_to(second_sink.0, &second.1, second_sink.1),
    ensures
        first.1.scanned() == second.1.scanned(),
        first.1.scanned() == scan(source),
        first_sink.1.skip(first_sink.0.len() as int) == second_sink.1.skip(
            second_sink.0.len() as int,
        ),
        first_sink.1.skip(first_sink.0.len() as int) == scan_reports(source),
{
}

} // verus!
