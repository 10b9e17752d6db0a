//! The lexical grammar: what scanning a source text yields, as mathematics.
//!
//! Scanning is defined position by position. `step` says what the lexeme that
//! starts at a position is and where it ends; `tokens_from`, `starts_from` and
//! `reports_from` follow the steps to the end of the text.
use vstd::prelude::*;
use crate::chars::{alpha, alphanumeric, blank, digit, digit_value};
use crate::lox::{LexError, ReportView};
use crate::token::{word_kind, DecimalView, TokenKind, TokenView};

verus! {

/// The classes of characters of which the scanner consumes maximal runs.
#[derive(Debug, Clone, Copy, PartialEq, Eq, Structural)]
pub enum CharClass {
    /// Decimal digits: the parts of a number.
    Digit,
    /// Letters, digits and underscores: the rest of a name.
    Word,
    /// Everything but the newline: the rest of a comment.
    CommentBody,
    /// Everything but the double quote: the body of a string literal.
    StringBody,
}

pub open spec fn in_class(class: CharClass, c: char) -> bool {
    match class {
        CharClass::Digit => digit(c),
        CharClass::Word => alphanumeric(c),
        CharClass::CommentBody => c != '\n',
        CharClass::StringBody => c != '"',
    }
}

/// Where the maximal run of characters of `class` that starts at `pos` ends:
/// the first position from `pos` on that holds no character of the class.
pub open spec fn run_end(src: Seq<char>, pos: int, class: CharClass) -> int
    decreases src.len() - pos,
{
    if 0 <= pos < src.len() && in_class(class, src[pos]) {
        run_end(src, pos + 1, class)
    } else {
        pos
    }
}

/// How many of the first `pos` characters are newlines.
pub open spec fn count_newlines(src: Seq<char>, pos: int) -> nat
    decreases pos,
{
    if pos <= 0 {
        0
    } else {
        count_newlines(src, pos - 1) + if src[pos - 1] == '\n' {
            1nat
        } else {
            0nat
        }
    }
}

/// The 1-based number of the line that position `pos` is on: one more than the
/// count of newlines before it.
pub open spec fn line_number(src: Seq<char>, pos: int) -> nat {
    1 + count_newlines(src, pos)
}

/// Whether position `pos` exists and holds `c`.
pub open spec fn has_at(src: Seq<char>, pos: int, c: char) -> bool {
    0 <= pos < src.len() && src[pos] == c
}

/// The punctuation that is a token by itself.
pub open spec fn symbol_kind(c: char) -> Option<TokenKind> {
    if c == '(' {
        Some(TokenKind::LeftParen)
    } else if c == ')' {
        Some(TokenKind::RightParen)
    } else if c == '{' {
        Some(TokenKind::LeftBrace)
    } else if c == '}' {
        Some(TokenKind::RightBrace)
    } else if c == ',' {
        Some(TokenKind::Comma)
    } else if c == '.' {
        Some(TokenKind::Dot)
    } else if c == '-' {
        Some(TokenKind::Minus)
    } else if c == '+' {
        Some(TokenKind::Plus)
    } else if c == ';' {
        Some(TokenKind::SemiColon)
    } else if c == '*' {
        Some(TokenKind::Star)
    } else {
        None
    }
}

/// The operators that an equals sign may follow: the kind of `c` alone, or of
/// `c` with the equals sign behind it.
pub open spec fn operator_kind(c: char, with_equal: bool) -> Option<TokenKind> {
    if c == '!' {
        Some(if with_equal { TokenKind::BangEqual } else { TokenKind::Bang })
    } else if c == '=' {
        Some(if with_equal { TokenKind::EqualEqual } else { TokenKind::Equal })
    } else if c == '<' {
        Some(if with_equal { TokenKind::LessEqual } else { TokenKind::Less })
    } else if c == '>' {
        Some(if with_equal { TokenKind::GreaterEqual } else { TokenKind::Greater })
    } else {
        None
    }
}

/// Whether a fraction follows the whole part of a number that ends at
/// `whole_end`: a point with a digit directly behind it.
pub open spec fn has_fraction(src: Seq<char>, whole_end: int) -> bool {
    has_at(src, whole_end, '.') && whole_end + 1 < src.len() && digit(src[whole_end + 1])
}

/// Where the number literal that starts at `pos` ends.
pub open spec fn number_end(src: Seq<char>, pos: int) -> int {
    let whole_end = run_end(src, pos, CharClass::Digit);
    if has_fraction(src, whole_end) {
        run_end(src, whole_end + 1, CharClass::Digit)
    } else {
        whole_end
    }
}

/// The values of a run of digits.
pub open spec fn digits_of(text: Seq<char>) -> Seq<u8> {
    Seq::new(text.len(), |i: int| digit_value(text[i]))
}

/// The value of the number literal that starts at `pos`.
pub open spec fn number_value(src: Seq<char>, pos: int) -> DecimalView {
    let whole_end = run_end(src, pos, CharClass::Digit);
    let whole = digits_of(src.subrange(pos, whole_end));
    if has_fraction(src, whole_end) {
        let end = run_end(src, whole_end + 1, CharClass::Digit);
        DecimalView {
            digits: whole + digits_of(src.subrange(whole_end + 1, end)),
            scale: (end - whole_end - 1) as nat,
        }
    } else {
        DecimalView { digits: whole, scale: 0 }
    }
}

/// What one lexeme amounts to.
pub enum Outcome {
    /// A token of the given kind.
    Token(TokenKind),
    /// Nothing: whitespace or a comment.
    Skip,
    /// An error to report, and no token.
    Error(LexError),
}

/// One step of the scanner: where the lexeme ends, and what it amounts to.
pub struct Step {
    pub end: int,
    pub outcome: Outcome,
}

/// The step that the scanner takes at position `pos` of `src`.
pub open spec fn step(src: Seq<char>, pos: int) -> Step
    recommends
        0 <= pos < src.len(),
{
    let c = src[pos];
    if symbol_kind(c) is Some {
        Step { end: pos + 1, outcome: Outcome::Token(symbol_kind(c)->0) }
    } else if operator_kind(c, false) is Some {
        let with_equal = has_at(src, pos + 1, '=');
        Step {
            end: if with_equal { pos + 2 } else { pos + 1 },
            outcome: Outcome::Token(operator_kind(c, with_equal)->0),
        }
    } else if c == '/' {
        if has_at(src, pos + 1, '/') {
            Step { end: run_end(src, pos + 2, CharClass::CommentBody), outcome: Outcome::Skip }
        } else {
            Step { end: pos + 1, outcome: Outcome::Token(TokenKind::Slash) }
        }
    } else if blank(c) {
        Step { end: pos + 1, outcome: Outcome::Skip }
    } else if c == '"' {
        let close = run_end(src, pos + 1, CharClass::StringBody);
        if close < src.len() {
            Step {
                end: close + 1,
                outcome: Outcome::Token(TokenKind::String(src.subrange(pos + 1, close))),
            }
        } else {
            Step { end: src.len() as int, outcome: Outcome::Error(LexError::UnterminatedString) }
        }
    } else if digit(c) {
        Step {
            end: number_end(src, pos),
            outcome: Outcome::Token(TokenKind::Number(number_value(src, pos))),
        }
    } else if alpha(c) {
        let end = run_end(src, pos, CharClass::Word);
        Step { end, outcome: Outcome::Token(word_kind(src.subrange(pos, end))) }
    } else {
        Step { end: pos + 1, outcome: Outcome::Error(LexError::UnexpectedCharacter(c)) }
    }
}

/// The token that the step at `pos` appends, if it appends one. Its lexeme is
/// the text of the step, its line the one on which that text begins.
pub open spec fn step_tokens(src: Seq<char>, pos: int) -> Seq<TokenView> {
    match step(src, pos).outcome {
        Outcome::Token(kind) => seq![
            TokenView {
                kind,
                lexeme: src.subrange(pos, step(src, pos).end),
                line: line_number(src, pos),
            },
        ],
        _ => Seq::empty(),
    }
}

/// The report that the step at `pos` makes, if it makes one. Its line is the
/// one that the scanner has reached when it finds the error.
pub open spec fn step_reports(src: Seq<char>, pos: int) -> Seq<ReportView> {
    match step(src, pos).outcome {
        Outcome::Error(error) => seq![
            ReportView {
                line: line_number(src, step(src, pos).end),
                location: Seq::empty(),
                message: error.message_text(),
            },
        ],
        _ => Seq::empty(),
    }
}

/// Where the token that the step at `pos` appends starts, if it appends one.
pub open spec fn step_starts(src: Seq<char>, pos: int) -> Seq<int> {
    match step(src, pos).outcome {
        Outcome::Token(_) => seq![pos],
        _ => Seq::empty(),
    }
}

/// The token that closes every scan.
pub open spec fn end_token(src: Seq<char>) -> TokenView {
    TokenView {
        kind: TokenKind::Eof,
        lexeme: Seq::empty(),
        line: line_number(src, src.len() as int),
    }
}

/// The bounds of a maximal run: it lies inside the text, holds only characters
/// of the class, and the character behind it, if there is one, is not of the
/// class.
pub proof fn lemma_run_end(src: Seq<char>, pos: int, class: CharClass)
    requires
        0 <= pos <= src.len(),
    ensures
        pos <= run_end(src, pos, class) <= src.len(),
        forall|i: int| pos <= i < run_end(src, pos, class) ==> in_class(class, #[trigger] src[i]),
        run_end(src, pos, class) < src.len() ==> !in_class(
            class,
            src[run_end(src, pos, class)],
        ),
    decreases src.len() - pos,
{
    if pos < src.len() && in_class(class, src[pos]) {
        lemma_run_end(src, pos + 1, class);
    }
}

/// Consuming one character moves to the next line exactly when the character
/// is a newline. No line is numbered higher than the characters before it
/// allow.
pub proof fn lemma_line_step(src: Seq<char>, pos: int)
    requires
        0 <= pos < src.len(),
    ensures
        line_number(src, pos + 1) == line_number(src, pos) + if src[pos] == '\n' {
            1nat
        } else {
            0nat
        },
        line_number(src, pos) <= pos + 1,
{
    lemma_newlines_bound(src, pos);
}

/// There are no more newlines before a position than characters.
pub proof fn lemma_newlines_bound(src: Seq<char>, pos: int)
    requires
        0 <= pos,
    ensures
        count_newlines(src, pos) <= pos,
    decreases pos,
{
    if pos > 0 {
        lemma_newlines_bound(src, pos - 1);
    }
}

/// Every step consumes at least one character and stays inside the text.
pub proof fn lemma_step_advances(src: Seq<char>, pos: int)
    requires
        0 <= pos < src.len(),
    ensures
        pos < step(src, pos).end <= src.len(),
{
    let c = src[pos];
    if has_at(src, pos + 1, '/') {
        lemma_run_end(src, pos + 2, CharClass::CommentBody);
    }
    lemma_run_end(src, pos + 1, CharClass::StringBody);
    lemma_run_end(src, pos, CharClass::Digit);
    let whole_end = run_end(src, pos, CharClass::Digit);
    if has_fraction(src, whole_end) {
        lemma_run_end(src, whole_end + 1, CharClass::Digit);
    }
    lemma_run_end(src, pos, CharClass::Word);
}

/// The tokens that scanning `src` from position `pos` appends: those of the
/// steps from `pos` to the end of the text, then the closing token.
pub open spec fn tokens_from(src: Seq<char>, pos: int) -> Seq<TokenView>
    decreases src.len() - pos,
    via tokens_from_decreases
{
    if 0 <= pos < src.len() {
        step_tokens(src, pos) + tokens_from(src, step(src, pos).end)
    } else {
        seq![end_token(src)]
    }
}

#[via_fn]
proof fn tokens_from_decreases(src: Seq<char>, pos: int) {
    if 0 <= pos < src.len() {
        lemma_step_advances(src, pos);
    }
}

/// The reports that scanning `src` from position `pos` makes, in order.
pub open spec fn reports_from(src: Seq<char>, pos: int) -> Seq<ReportView>
    decreases src.len() - pos,
    via reports_from_decreases
{
    if 0 <= pos < src.len() {
        step_reports(src, pos) + reports_from(src, step(src, pos).end)
    } else {
        Seq::empty()
    }
}

#[via_fn]
proof fn reports_from_decreases(src: Seq<char>, pos: int) {
    if 0 <= pos < src.len() {
        lemma_step_advances(src, pos);
    }
}

/// Where each token of `tokens_from(src, pos)` starts. The closing token
/// starts at the end of the text.
pub open spec fn starts_from(src: Seq<char>, pos: int) -> Seq<int>
    decreases src.len() - pos,
    via starts_from_decreases
{
    if 0 <= pos < src.len() {
        step_starts(src, pos) + starts_from(src, step(src, pos).end)
    } else {
        seq![src.len() as int]
    }
}

#[via_fn]
proof fn starts_from_decreases(src: Seq<char>, pos: int) {
    if 0 <= pos < src.len() {
        lemma_step_advances(src, pos);
    }
}

/// The tokens of a source text.
pub open spec fn scan(src: Seq<char>) -> Seq<TokenView> {
    tokens_from(src, 0)
}

/// The reports that scanning a source text makes.
pub open spec fn scan_reports(src: Seq<char>) -> Seq<ReportView> {
    reports_from(src, 0)
}

/// Where each token of a source text starts.
pub open spec fn scan_starts(src: Seq<char>) -> Seq<int> {
    starts_from(src, 0)
}

} // verus!
