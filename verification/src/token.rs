//! Tokens: what the scanner produces.
use vstd::prelude::*;
use crate::text::spells;

verus! {

/// A number literal as an exact decimal: the digits of the literal, most
/// significant first and with the decimal point taken out, and the count of
/// digits that stood after the point.
pub struct DecimalView {
    pub digits: Seq<u8>,
    pub scale: nat,
}

impl DecimalView {
    /// Every digit is below ten, and there is a digit before the point.
    pub open spec fn wf(self) -> bool {
        &&& self.scale < self.digits.len()
        &&& forall|i: int| 0 <= i < self.digits.len() ==> self.digits[i] <= 9
    }
}

/// The kind of a token, with the payload of a literal as a mathematical value.
pub enum TokenKind {
    // Single-character tokens.
    LeftParen,
    RightParen,
    LeftBrace,
    RightBrace,
    Comma,
    Dot,
    Minus,
    Plus,
    SemiColon,
    Slash,
    Star,
    // One or two character tokens.
    Bang,
    BangEqual,
    Equal,
    EqualEqual,
    Greater,
    GreaterEqual,
    Less,
    LessEqual,
    // Literals.
    Identifier,
    String(Seq<char>),
    Number(DecimalView),
    // Keywords.
    And,
    Class,
    Else,
    False,
    Fun,
    For,
    If,
    Nil,
    Or,
    Print,
    Return,
    Super,
    This,
    True,
    Var,
    While,
    Eof,
}

/// The value of a number literal.
#[derive(Debug, Clone, PartialEq, Eq)]
pub struct Decimal {
    digits: Vec<u8>,
    scale: usize,
}

impl View for Decimal {
    type V = DecimalView;

    closed spec fn view(&self) -> DecimalView {
        DecimalView { digits: self.digits@, scale: self.scale as nat }
    }
}

impl Decimal {
    pub fn new(digits: Vec<u8>, scale: usize) -> (d: Decimal)
        ensures
            d@ == (DecimalView { digits: digits@, scale: scale as nat }),
    {
        Decimal { digits, scale }
    }

    /// The digits of the literal, most significant first.
    pub fn digits(&self) -> (digits: &Vec<u8>)
        ensures
            digits@ == self@.digits,
    {
        &self.digits
    }

    /// How many of the digits stand after the decimal point.
    pub fn scale(&self) -> (scale: usize)
        ensures
            scale == self@.scale,
    {
        self.scale
    }
}

/// The kind of a token. String and number literals carry their decoded value.
#[derive(Debug, Clone, PartialEq, Eq)]
pub enum TokenType {
    // Single-character tokens.
    LeftParen,
    RightParen,
    LeftBrace,
    RightBrace,
    Comma,
    Dot,
    Minus,
    Plus,
    SemiColon,
    Slash,
    Star,
    // One or two character tokens.
    Bang,
    BangEqual,
    Equal,
    EqualEqual,
    Greater,
    GreaterEqual,
    Less,
    LessEqual,
    // Literals.
    Identifier,
    String(String),
    Number(Decimal),
    // Keywords.
    And,
    Class,
    Else,
    False,
    Fun,
    For,
    If,
    Nil,
    Or,
    Print,
    Return,
    Super,
    This,
    True,
    Var,
    While,
    Eof,
}

impl View for TokenType {
    type V = TokenKind;

    open spec fn view(&self) -> TokenKind {
        match self {
            TokenType::LeftParen => TokenKind::LeftParen,
            TokenType::RightParen => TokenKind::RightParen,
            TokenType::LeftBrace => TokenKind::LeftBrace,
            TokenType::RightBrace => TokenKind::RightBrace,
            TokenType::Comma => TokenKind::Comma,
            TokenType::Dot => TokenKind::Dot,
            TokenType::Minus => TokenKind::Minus,
            TokenType::Plus => TokenKind::Plus,
            TokenType::SemiColon => TokenKind::SemiColon,
            TokenType::Slash => TokenKind::Slash,
            TokenType::Star => TokenKind::Star,
            TokenType::Bang => TokenKind::Bang,
            TokenType::BangEqual => TokenKind::BangEqual,
            TokenType::Equal => TokenKind::Equal,
            TokenType::EqualEqual => TokenKind::EqualEqual,
            TokenType::Greater => TokenKind::Greater,
            TokenType::GreaterEqual => TokenKind::GreaterEqual,
            TokenType::Less => TokenKind::Less,
            TokenType::LessEqual => TokenKind::LessEqual,
            TokenType::Identifier => TokenKind::Identifier,
            TokenType::And => TokenKind::And,
            TokenType::Class => TokenKind::Class,
            TokenType::Else => TokenKind::Else,
            TokenType::False => TokenKind::False,
            TokenType::Fun => TokenKind::Fun,
            TokenType::For => TokenKind::For,
            TokenType::If => TokenKind::If,
            TokenType::Nil => TokenKind::Nil,
            TokenType::Or => TokenKind::Or,
            TokenType::Print => TokenKind::Print,
            TokenType::Return => TokenKind::Return,
            TokenType::Super => TokenKind::Super,
            TokenType::This => TokenKind::This,
            TokenType::True => TokenKind::True,
            TokenType::Var => TokenKind::Var,
            TokenType::While => TokenKind::While,
            TokenType::Eof => TokenKind::Eof,
            TokenType::String(text) => TokenKind::String(text@),
            TokenType::Number(value) => TokenKind::Number(value@),
        }
    }
}

/// The reserved word that a name spells, if it spells one. The whole name has
/// to match: a name that only starts with a reserved word is not reserved.
pub open spec fn keyword_kind(word: Seq<char>) -> Option<TokenKind> {
    if word == "and"@ {
        Some(TokenKind::And)
    } else if word == "class"@ {
        Some(TokenKind::Class)
    } else if word == "else"@ {
        Some(TokenKind::Else)
    } else if word == "false"@ {
        Some(TokenKind::False)
    } else if word == "for"@ {
        Some(TokenKind::For)
    } else if word == "fun"@ {
        Some(TokenKind::Fun)
    } else if word == "if"@ {
        Some(TokenKind::If)
    } else if word == "nil"@ {
        Some(TokenKind::Nil)
    } else if word == "or"@ {
        Some(TokenKind::Or)
    } else if word == "print"@ {
        Some(TokenKind::Print)
    } else if word == "return"@ {
        Some(TokenKind::Return)
    } else if word == "super"@ {
        Some(TokenKind::Super)
    } else if word == "this"@ {
        Some(TokenKind::This)
    } else if word == "true"@ {
        Some(TokenKind::True)
    } else if word == "var"@ {
        Some(TokenKind::Var)
    } else if word == "while"@ {
        Some(TokenKind::While)
    } else {
        None
    }
}

/// The kind of a name: that of the reserved word it spells, else `Identifier`.
pub open spec fn word_kind(word: Seq<char>) -> TokenKind {
    match keyword_kind(word) {
        Some(kind) => kind,
        None => TokenKind::Identifier,
    }
}

/// Looks a name up among the reserved words.
pub fn keyword(word: &[char]) -> (found: Option<TokenType>)
    ensures
        match found {
            Some(typ) => keyword_kind(word@) == Some(typ@),
            None => keyword_kind(word@) is None,
        },
{
    if spells(word, "and") {
        Some(TokenType::And)
    } else if spells(word, "class") {
        Some(TokenType::Class)
    } else if spells(word, "else") {
        Some(TokenType::Else)
    } else if spells(word, "false") {
        Some(TokenType::False)
    } else if spells(word, "for") {
        Some(TokenType::For)
    } else if spells(word, "fun") {
        Some(TokenType::Fun)
    } else if spells(word, "if") {
        Some(TokenType::If)
    } else if spells(word, "nil") {
        Some(TokenType::Nil)
    } else if spells(word, "or") {
        Some(TokenType::Or)
    } else if spells(word, "print") {
        Some(TokenType::Print)
    } else if spells(word, "return") {
        Some(TokenType::Return)
    } else if spells(word, "super") {
        Some(TokenType::Super)
    } else if spells(word, "this") {
        Some(TokenType::This)
    } else if spells(word, "true") {
        Some(TokenType::True)
    } else if spells(word, "var") {
        Some(TokenType::Var)
    } else if spells(word, "while") {
        Some(TokenType::While)
    } else {
        None
    }
}

/// A token as a mathematical value.
pub struct TokenView {
    pub kind: TokenKind,
    pub lexeme: Seq<char>,
    pub line: nat,
}

/// A classified lexeme: its kind, the text it was read from, and the line on
/// which that text begins.
#[derive(Debug, Clone, PartialEq, Eq)]
pub struct Token {
    typ: TokenType,
    lexeme: String,
    line: usize,
}

impl View for Token {
    type V = TokenView;

    closed spec fn view(&self) -> TokenView {
        TokenView { kind: self.typ@, lexeme: self.lexeme@, line: self.line as nat }
    }
}

impl Token {
    pub fn new(typ: TokenType, lexeme: String, line: usize) -> (token: Token)
        ensures
            token@ == (TokenView { kind: typ@, lexeme: lexeme@, line: line as nat }),
    {
        Self { typ, lexeme, line }
    }

    pub fn typ(&self) -> (typ: &TokenType)
        ensures
            typ@ == self@.kind,
    {
        &self.typ
    }

    pub fn lexeme(&self) -> (lexeme: &str)
        ensures
            lexeme@ == self@.lexeme,
    {
        self.lexeme.as_str()
    }

    pub fn line(&self) -> (line: usize)
        ensures
            line == self@.line,
    {
        self.line
    }
}

/// The views of a sequence of tokens, in order.
pub open spec fn token_views(tokens: Seq<Token>) -> Seq<TokenView> {
    Seq::new(tokens.len(), |i: int| tokens[i]@)
}

} // verus!
