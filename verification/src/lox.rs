//! Diagnostics: the lexical errors, and the sink that collects their reports.
use vstd::prelude::*;

verus! {

/// What can be wrong with a lexeme.
#[derive(Debug, Clone, Copy, PartialEq, Eq, Structural)]
pub enum LexError {
    /// A character that starts no lexeme.
    UnexpectedCharacter(char),
    /// A string literal whose closing quote is missing.
    UnterminatedString,
}

impl LexError {
    /// The message under which the error is reported.
    pub open spec fn message_text(self) -> Seq<char> {
        match self {
            LexError::UnexpectedCharacter(c) => "Unexpected character '"@.push(c) + "'"@,
            LexError::UnterminatedString => "Unterminated string"@,
        }
    }

    pub fn message(&self) -> (text: String)
        ensures
            text@ == self.message_text(),
    {
        match self {
            LexError::UnexpectedCharacter(c) => {
                let mut text = String::from_str("Unexpected character '");
                text.push(*c);
                text.append("'");
                text
            },
            LexError::UnterminatedString => String::from_str("Unterminated string"),
        }
    }
}

/// The character that writes a digit.
pub open spec fn digit_char(d: nat) -> char
    recommends
        d <= 9,
{
    ('0' as u8 + d) as u8 as char
}

/// A natural number written in decimal, without leading zeros.
pub open spec fn decimal_text(n: nat) -> Seq<char>
    decreases n,
{
    if n < 10 {
        seq![digit_char(n)]
    } else {
        decimal_text(n / 10).push(digit_char(n % 10))
    }
}

/// Writes a number in decimal.
pub fn decimal_string(n: usize) -> (text: String)
    ensures
        text@ == decimal_text(n as nat),
{
    let mut low_first: Vec<char> = Vec::new();
    let mut rest = n;
    while rest >= 10
        invariant
            decimal_text(n as nat) == decimal_text(rest as nat) + low_first@.reverse(),
        decreases rest,
    {
        let d = (rest % 10) as u8;
        low_first.push((48u8 + d) as char);
        rest = rest / 10;
    }
    low_first.push((48u8 + rest as u8) as char);
    let mut text = String::new();
    let mut i = low_first.len();
    while i > 0
        invariant
            i <= low_first.len(),
            text@ == low_first@.reverse().take(low_first.len() - i),
        decreases i,
    {
        i -= 1;
        text.push(low_first[i]);
    }
    text
}

/// A report as a mathematical value.
pub struct ReportView {
    pub line: nat,
    pub location: Seq<char>,
    pub message: Seq<char>,
}

impl ReportView {
    /// The line of text that shows the report.
    pub open spec fn rendered(self) -> Seq<char> {
        "[line "@ + decimal_text(self.line) + "] Error"@ + self.location + ": "@ + self.message
    }
}

/// One reported error: the line it was found on, a label that says where on
/// the line (empty for lexical errors), and the message.
#[derive(Debug, Clone, PartialEq, Eq)]
pub struct Report {
    line: usize,
    location: String,
    message: String,
}

impl View for Report {
    type V = ReportView;

    closed spec fn view(&self) -> ReportView {
        ReportView { line: self.line as nat, location: self.location@, message: self.message@ }
    }
}

impl Report {
    pub fn new(line: usize, location: String, message: String) -> (report: Report)
        ensures
            report@ == (ReportView {
                line: line as nat,
                location: location@,
                message: message@,
            }),
    {
        Report { line, location, message }
    }

    pub fn line(&self) -> (line: usize)
        ensures
            line == self@.line,
    {
        self.line
    }

    pub fn location(&self) -> (location: &str)
        ensures
            location@ == self@.location,
    {
        self.location.as_str()
    }

    pub fn message(&self) -> (message: &str)
        ensures
            message@ == self@.message,
    {
        self.message.as_str()
    }

    /// The line of text that shows the report.
    pub fn render(&self) -> (text: String)
        ensures
            text@ == self@.rendered(),
    {
        let mut text = String::from_str("[line ");
        let number = decimal_string(self.line);
        text.append(number.as_str());
        text.append("] Error");
        text.append(self.location.as_str());
        text.append(": ");
        text.append(self.message.as_str());
        text
    }
}

/// The views of a sequence of reports, in order.
pub open spec fn report_views(reports: Seq<Report>) -> Seq<ReportView> {
    Seq::new(reports.len(), |i: int| reports[i]@)
}

/// The interpreter's error sink: it keeps every report it is handed, in order.
#[derive(Debug)]
pub struct Lox {
    reports: Vec<Report>,
}

impl View for Lox {
    type V = Seq<ReportView>;

    closed spec fn view(&self) -> Seq<ReportView> {
        report_views(self.reports@)
    }
}

impl Lox {
    pub fn new() -> (lox: Lox)
        ensures
            lox@ == Seq::<ReportView>::empty(),
    {
        Self { reports: Vec::new() }
    }

    /// Reports an error that has no location label.
    pub fn error(&mut self, line: usize, msg: &str)
        ensures
            final(self)@ == old(self)@.push(
                ReportView { line: line as nat, location: Seq::empty(), message: msg@ },
            ),
    {
        proof {
            reveal_strlit("");
            assert(""@ =~= Seq::<char>::empty());
        }
        self.report(line, "", msg)
    }

    /// Reports an error found on `line`, at the place that `loc_str` names.
    pub fn report(&mut self, line: usize, loc_str: &str, msg: &str)
        ensures
            final(self)@ == old(self)@.push(
                ReportView { line: line as nat, location: loc_str@, message: msg@ },
            ),
    {
        let report = Report::new(line, String::from_str(loc_str), String::from_str(msg));
        self.reports.push(report);
    }

    /// Whether anything was reported.
    pub fn had_error(&self) -> (b: bool)
        ensures
            b == (self@.len() > 0),
    {
        self.reports.len() > 0
    }

    /// The reports, first to last.
    pub fn reports(&self) -> (reports: &Vec<Report>)
        ensures
            report_views(reports@) == self@,
    {
        &self.reports
    }
}

} // verus!
