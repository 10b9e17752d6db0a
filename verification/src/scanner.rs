//! The scanner: a cursor over the source text that appends one token per
//! lexeme and hands lexical errors to the interpreter's error sink.
use vstd::prelude::*;
use vstd::slice::slice_subrange;
use crate::chars::{alpha, digit, digit_of, is_alpha, is_digit};
use crate::grammar::{
    digits_of, end_token, has_at, in_class, lemma_line_step, lemma_run_end, lemma_step_advances,
    line_number, reports_from, run_end, step, step_reports, step_tokens, tokens_from, CharClass,
};
use crate::lox::{LexError, Lox, ReportView};
use crate::text::{chars_of, string_of};
use crate::token::{keyword, token_views, Decimal, Token, TokenType, TokenView};

verus! {

/// Whether a character belongs to a class.
pub fn accepts(class: CharClass, c: char) -> (b: bool)
    ensures
        b == in_class(class, c),
{
    match class {
        CharClass::Digit => is_digit(c),
        CharClass::Word => is_alpha(c) || is_digit(c),
        CharClass::CommentBody => c != '\n',
        CharClass::StringBody => c != '"',
    }
}

/// The characters of a source text. There are fewer than `usize::MAX` of them,
/// as for every vector that takes one more item: so the lines of the text can
/// be counted without overflow.
fn source_chars(source: &str) -> (chars: Vec<char>)
    ensures
        chars@ == source@,
        chars@.len() < usize::MAX,
{
    let mut chars = chars_of(source);
    chars.push('\n');
    assert(chars.len() == source@.len() + 1);
    chars.pop();
    assert(chars@ == source@);
    chars
}

/// A cursor over a source text, with the tokens read so far.
pub struct Scanner {
    source: Vec<char>,
    pub tokens: Vec<Token>,
    start: usize,
    current: usize,
    line: usize,
    start_line: usize,
}

impl Scanner {
    /// The source text.
    pub closed spec fn text(&self) -> Seq<char> {
        self.source@
    }

    /// The tokens appended so far.
    pub closed spec fn scanned(&self) -> Seq<TokenView> {
        token_views(self.tokens@)
    }

    /// The position of the next character to read.
    pub closed spec fn cursor(&self) -> int {
        self.current as int
    }

    /// The cursor lies inside the text, behind the start of the lexeme in
    /// hand, and the line counter is that of the cursor's position. The text
    /// is short enough for the line of its end to be counted.
    pub closed spec fn wf(&self) -> bool {
        &&& self.start <= self.current <= self.source.len() < usize::MAX
        &&& self.line == line_number(self.source@, self.current as int)
    }

    /// A scanner as `new` makes it for `source`: at the start of the text, with
    /// no token yet.
    pub open spec fn is_new_for(&self, source: Seq<char>) -> bool {
        &&& self.wf()
        &&& self.text() == source
        &&& self.cursor() == 0
        &&& self.scanned() == Seq::<TokenView>::empty()
    }

    /// What `scan_tokens` does: it takes this scanner to `done`, and a sink
    /// that holds `reported` to one that holds `reported_then`. The text stays,
    /// the cursor reaches its end, and the tokens and the reports of the text
    /// from the cursor on are appended.
    pub open spec fn scans_to(
        &self,
        reported: Seq<ReportView>,
        done: &Scanner,
        reported_then: Seq<ReportView>,
    ) -> bool {
        &&& done.wf()
        &&& done.text() == self.text()
        &&& done.cursor() == self.text().len()
        &&& done.scanned() == self.scanned() + tokens_from(self.text(), self.cursor())
        &&& reported_then == reported + reports_from(self.text(), self.cursor())
    }

    /// In the middle of a lexeme: the lexeme's start is marked with its line.
    spec fn in_lexeme(&self) -> bool {
        &&& self.wf()
        &&& self.start_line == line_number(self.source@, self.start as int)
    }

    /// The tokens are those of `before`, with at most one more behind them.
    spec fn appends_to(&self, before: &Scanner) -> bool {
        &&& before.tokens@.len() <= self.tokens@.len() <= before.tokens@.len() + 1
        &&& self.tokens@.take(before.tokens@.len() as int) =~= before.tokens@
    }

    /// The fields that only `add_token` and the cursor movements change.
    spec fn same_lexeme(&self, other: &Scanner) -> bool {
        &&& self.source == other.source
        &&& self.tokens == other.tokens
        &&& self.start == other.start
        &&& self.start_line == other.start_line
    }

    pub fn new(source: String) -> (scanner: Scanner)
        ensures
            scanner.is_new_for(source@),
    {
        let scanner = Scanner {
            source: source_chars(source.as_str()),
            tokens: Vec::new(),
            start: 0,
            current: 0,
            line: 1,
            start_line: 1,
        };
        assert(scanner.scanned() == Seq::<TokenView>::empty());
        scanner
    }

    /// Scans the text from the cursor to its end: appends the tokens of every
    /// lexeme and the closing token to `tokens`, and reports every lexical
    /// error to `interpreter`.
    pub fn scan_tokens(&mut self, interpreter: &mut Lox) -> (tokens: &[Token])
        requires
            old(self).wf(),
        ensures
            old(self).scans_to(old(interpreter)@, final(self), final(interpreter)@),
            token_views(tokens@) == final(self).scanned(),
    {
        while !self.is_at_end()
            invariant
                self.wf(),
                self.source == old(self).source,
                token_views(self.tokens@) + tokens_from(self.source@, self.current as int)
                    == token_views(old(self).tokens@) + tokens_from(
                    old(self).source@,
                    old(self).current as int,
                ),
                interpreter@ + reports_from(self.source@, self.current as int) == old(
                    interpreter,
                )@ + reports_from(old(self).source@, old(self).current as int),
            decreases self.source.len() - self.current,
        {
            self.start = self.current;
            self.start_line = self.line;
            proof {
                lemma_step_advances(self.source@, self.current as int);
            }
            self.scan_token(interpreter);
        }
        proof {
            reveal_strlit("");
            assert(""@ =~= Seq::<char>::empty());
        }
        let ghost before = self.tokens@;
        let end = Token::new(TokenType::Eof, "".to_string(), self.line);
        self.tokens.push(end);
        assert(token_views(self.tokens@) == token_views(before) + seq![end_token(self.source@)]);
        self.tokens.as_slice()
    }

    /// Reads the lexeme that starts at the cursor.
    fn scan_token(&mut self, interpreter: &mut Lox)
        requires
            old(self).in_lexeme(),
            old(self).start == old(self).current,
            old(self).current < old(self).source.len(),
        ensures
            final(self).wf(),
            final(self).source == old(self).source,
            final(self).start == old(self).start,
            final(self).start_line == old(self).start_line,
            final(self).appends_to(old(self)),
            old(self).current < final(self).current <= old(self).source.len(),
            final(self).current == step(old(self).source@, old(self).current as int).end,
            token_views(final(self).tokens@) == token_views(old(self).tokens@) + step_tokens(
                old(self).source@,
                old(self).current as int,
            ),
            final(interpreter)@ == old(interpreter)@ + step_reports(
                old(self).source@,
                old(self).current as int,
            ),
    {
        proof {
            lemma_line_step(self.source@, self.current as int);
            lemma_step_advances(self.source@, self.current as int);
        }
        let c = self.advance();
        match c {
            '(' => self.add_token(TokenType::LeftParen),
            ')' => self.add_token(TokenType::RightParen),
            '{' => self.add_token(TokenType::LeftBrace),
            '}' => self.add_token(TokenType::RightBrace),
            ',' => self.add_token(TokenType::Comma),
            '.' => self.add_token(TokenType::Dot),
            '-' => self.add_token(TokenType::Minus),
            '+' => self.add_token(TokenType::Plus),
            ';' => self.add_token(TokenType::SemiColon),
            '*' => self.add_token(TokenType::Star),
            '"' => self.string(interpreter),
            '!' => {
                if self.next_match('=') {
                    self.add_token(TokenType::BangEqual)
                } else {
                    self.add_token(TokenType::Bang)
                }
            },
            '=' => {
                if self.next_match('=') {
                    self.add_token(TokenType::EqualEqual)
                } else {
                    self.add_token(TokenType::Equal)
                }
            },
            '<' => {
                if self.next_match('=') {
                    self.add_token(TokenType::LessEqual)
                } else {
                    self.add_token(TokenType::Less)
                }
            },
            '>' => {
                if self.next_match('=') {
                    self.add_token(TokenType::GreaterEqual)
                } else {
                    self.add_token(TokenType::Greater)
                }
            },
            '/' => {
                if self.next_match('/') {
                    // A comment goes until the end of the line
                    self.run(CharClass::CommentBody);
                } else {
                    self.add_token(TokenType::Slash)
                }
            },
            ' ' | '\r' | '\t' => {},
            '\n' => self.next_line(),
            _ => {
                if is_digit(c) {
                    self.number();
                } else if is_alpha(c) {
                    self.identifier();
                } else {
                    let error = LexError::UnexpectedCharacter(c);
                    interpreter.error(self.line, error.message().as_str());
                }
            },
        }
    }

    /// Consumes a string literal whose opening quote was just read.
    fn string(&mut self, interpreter: &mut Lox)
        requires
            old(self).in_lexeme(),
            old(self).start + 1 == old(self).current,
            old(self).source@[old(self).start as int] == '"',
        ensures
            final(self).wf(),
            final(self).source == old(self).source,
            final(self).start == old(self).start,
            final(self).start_line == old(self).start_line,
            final(self).appends_to(old(self)),
            final(self).current == step(old(self).source@, old(self).start as int).end,
            token_views(final(self).tokens@) == token_views(old(self).tokens@) + step_tokens(
                old(self).source@,
                old(self).start as int,
            ),
            final(interpreter)@ == old(interpreter)@ + step_reports(
                old(self).source@,
                old(self).start as int,
            ),
    {
        self.run(CharClass::StringBody);
        proof {
            lemma_run_end(self.source@, self.start as int + 1, CharClass::StringBody);
        }

        if self.is_at_end() {
            interpreter.error(self.line, LexError::UnterminatedString.message().as_str());
            return;
        }
        proof {
            lemma_line_step(self.source@, self.current as int);
        }
        // Consume the closing '"'
        self.advance();

        // Trim the surrounding quotes
        let literal = string_of(
            slice_subrange(self.source.as_slice(), self.start + 1, self.current - 1),
        );
        self.add_token(TokenType::String(literal));
    }

    /// Consumes a number literal whose first digit was just read.
    fn number(&mut self)
        requires
            old(self).in_lexeme(),
            old(self).start + 1 == old(self).current,
            digit(old(self).source@[old(self).start as int]),
        ensures
            final(self).wf(),
            final(self).source == old(self).source,
            final(self).start == old(self).start,
            final(self).start_line == old(self).start_line,
            final(self).appends_to(old(self)),
            final(self).current == step(old(self).source@, old(self).start as int).end,
            token_views(final(self).tokens@) == token_views(old(self).tokens@) + step_tokens(
                old(self).source@,
                old(self).start as int,
            ),
    {
        self.run(CharClass::Digit);
        let whole_end = self.current;
        proof {
            lemma_run_end(self.source@, self.start as int + 1, CharClass::Digit);
        }
        let mut digits = self.digits_between(self.start, whole_end);
        let mut scale: usize = 0;
        let fraction_follows = match (self.peek(), self.peek_next()) {
            (Some(point), Some(next)) => point == '.' && is_digit(next),
            _ => false,
        };
        if fraction_follows {
            proof {
                lemma_line_step(self.source@, self.current as int);
                lemma_run_end(self.source@, whole_end as int + 1, CharClass::Digit);
            }
            // Consume the '.'
            self.advance();

            // Consume the fractional part
            self.run(CharClass::Digit);
            let mut fraction = self.digits_between(whole_end + 1, self.current);
            scale = self.current - whole_end - 1;
            digits.append(&mut fraction);
        }
        self.add_token(TokenType::Number(Decimal::new(digits, scale)));
    }

    /// Consumes a name whose first character was just read.
    fn identifier(&mut self)
        requires
            old(self).in_lexeme(),
            old(self).start + 1 == old(self).current,
            alpha(old(self).source@[old(self).start as int]),
            !digit(old(self).source@[old(self).start as int]),
        ensures
            final(self).wf(),
            final(self).source == old(self).source,
            final(self).start == old(self).start,
            final(self).start_line == old(self).start_line,
            final(self).appends_to(old(self)),
            final(self).current == step(old(self).source@, old(self).start as int).end,
            token_views(final(self).tokens@) == token_views(old(self).tokens@) + step_tokens(
                old(self).source@,
                old(self).start as int,
            ),
    {
        self.run(CharClass::Word);
        let ident_text = slice_subrange(self.source.as_slice(), self.start, self.current);
        let token_type = match keyword(ident_text) {
            Some(typ) => typ,
            None => TokenType::Identifier,
        };
        self.add_token(token_type);
    }

    /// Decodes the digits at the positions from `from` up to `to`.
    fn digits_between(&self, from: usize, to: usize) -> (digits: Vec<u8>)
        requires
            from <= to <= self.source.len(),
            forall|i: int| from <= i < to ==> digit(#[trigger] self.source@[i]),
        ensures
            digits@ == digits_of(self.source@.subrange(from as int, to as int)),
    {
        let mut digits: Vec<u8> = Vec::new();
        let mut i = from;
        while i < to
            invariant
                from <= i <= to <= self.source.len(),
                forall|j: int| from <= j < to ==> digit(#[trigger] self.source@[j]),
                digits@ == digits_of(self.source@.subrange(from as int, i as int)),
            decreases to - i,
        {
            digits.push(digit_of(self.source[i]));
            i += 1;
        }
        digits
    }

    /// Consumes the maximal run of characters of `class` at the cursor,
    /// counting the lines it crosses.
    fn run(&mut self, class: CharClass)
        requires
            old(self).wf(),
        ensures
            final(self).wf(),
            final(self).same_lexeme(old(self)),
            final(self).current == run_end(old(self).source@, old(self).current as int, class),
    {
        loop
            invariant
                self.wf(),
                self.same_lexeme(old(self)),
                run_end(self.source@, self.current as int, class) == run_end(
                    old(self).source@,
                    old(self).current as int,
                    class,
                ),
            ensures
                self.current == run_end(old(self).source@, old(self).current as int, class),
            decreases self.source.len() - self.current,
        {
            match self.peek() {
                Some(c) => {
                    if !accepts(class, c) {
                        break;
                    }
                    proof {
                        lemma_line_step(self.source@, self.current as int);
                    }
                    if c == '\n' {
                        self.next_line();
                    }
                    self.advance();
                },
                None => {
                    break;
                },
            }
        }
    }

    /// Counts one more line.
    fn next_line(&mut self)
        requires
            old(self).line < usize::MAX,
        ensures
            final(self).same_lexeme(old(self)),
            final(self).current == old(self).current,
            final(self).line == old(self).line + 1,
    {
        self.line += 1;
    }

    fn is_at_end(&self) -> (b: bool)
        ensures
            b == (self.current >= self.source.len()),
    {
        self.current >= self.source.len()
    }

    fn advance(&mut self) -> (next_char: char)
        requires
            old(self).current < old(self).source.len(),
        ensures
            final(self).same_lexeme(old(self)),
            final(self).line == old(self).line,
            final(self).current == old(self).current + 1,
            next_char == old(self).source@[old(self).current as int],
    {
        let next_char = self.source[self.current];
        self.current += 1;
        next_char
    }

    fn add_token(&mut self, typ: TokenType)
        requires
            old(self).start <= old(self).current <= old(self).source.len(),
        ensures
            final(self).source == old(self).source,
            final(self).start == old(self).start,
            final(self).start_line == old(self).start_line,
            final(self).current == old(self).current,
            final(self).line == old(self).line,
            final(self).tokens@.len() == old(self).tokens@.len() + 1,
            final(self).tokens@.drop_last() == old(self).tokens@,
            token_views(final(self).tokens@) == token_views(old(self).tokens@).push(
                TokenView {
                    kind: typ@,
                    lexeme: old(self).source@.subrange(
                        old(self).start as int,
                        old(self).current as int,
                    ),
                    line: old(self).start_line as nat,
                },
            ),
    {
        let text = string_of(slice_subrange(self.source.as_slice(), self.start, self.current));
        let token = Token::new(typ, text, self.start_line);
        self.tokens.push(token);
    }

    fn next_match(&mut self, expected: char) -> (next_matches: bool)
        requires
            old(self).current <= old(self).source.len(),
        ensures
            final(self).same_lexeme(old(self)),
            final(self).line == old(self).line,
            next_matches == has_at(old(self).source@, old(self).current as int, expected),
            final(self).current == if next_matches {
                old(self).current + 1
            } else {
                old(self).current as int
            },
    {
        let next_matches = match self.peek() {
            Some(c) => c == expected,
            None => false,
        };
        if next_matches {
            self.current += 1;
            true
        } else {
            false
        }
    }

    fn peek(&self) -> (next: Option<char>)
        ensures
            next == if self.current < self.source.len() {
                Some(self.source@[self.current as int])
            } else {
                None
            },
    {
        if self.current < self.source.len() {
            Some(self.source[self.current])
        } else {
            None
        }
    }

    fn peek_next(&self) -> (next: Option<char>)
        ensures
            next == if self.current + 1 < self.source.len() {
                Some(self.source@[self.current + 1])
            } else {
                None
            },
    {
        if self.current < self.source.len() && self.current + 1 < self.source.len() {
            Some(self.source[self.current + 1])
        } else {
            None
        }
    }
}

} // verus!
