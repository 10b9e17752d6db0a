//! Character classes of the lexical grammar.
use vstd::prelude::*;

verus! {

/// The ASCII decimal digits.
pub open spec fn digit(c: char) -> bool {
    '0' <= c <= '9'
}

/// The characters that may start a name: ASCII letters and the underscore.
pub open spec fn alpha(c: char) -> bool {
    ('a' <= c <= 'z') || ('A' <= c <= 'Z') || c == '_'
}

/// The characters that may continue a name.
pub open spec fn alphanumeric(c: char) -> bool {
    alpha(c) || digit(c)
}

/// The characters that separate lexemes without being one: space, carriage
/// return, tab and newline.
pub open spec fn blank(c: char) -> bool {
    c == ' ' || c == '\r' || c == '\t' || c == '\n'
}

/// The value of a decimal digit, between 0 and 9.
pub open spec fn digit_value(c: char) -> u8
    recommends
        digit(c),
{
    (c as u32 - '0' as u32) as u8
}

#[verifier::when_used_as_spec(digit)]
pub fn is_digit(c: char) -> (b: bool)
    ensures
        b == digit(c),
{
    '0' <= c && c <= '9'
}

#[verifier::when_used_as_spec(alpha)]
pub fn is_alpha(c: char) -> (b: bool)
    ensures
        b == alpha(c),
{
    ('a' <= c && c <= 'z') || ('A' <= c && c <= 'Z') || c == '_'
}

#[verifier::when_used_as_spec(alphanumeric)]
pub fn is_alphanumeric(c: char) -> (b: bool)
    ensures
        b == alphanumeric(c),
{
    is_alpha(c) || is_digit(c)
}

/// Decodes one decimal digit.
pub fn digit_of(c: char) -> (d: u8)
    requires
        digit(c),
    ensures
        d == digit_value(c),
        d <= 9,
{
    (c as u32 - '0' as u32) as u8
}

} // verus!
