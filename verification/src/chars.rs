use vstd::prelude::*;

verus! {

/// Punctuation characters that always form a one-character token of their own.
pub open spec fn singular_char(c: char) -> bool {
    c == '(' || c == ')' || c == '[' || c == ']' || c == '{' || c == '}' || c == ',' || c == ';'
}

pub(crate) fn is_singular(c: char) -> (r: bool)
    ensures
        r == singular_char(c),
{
    match c {
        '(' | ')' | '[' | ']' | '{' | '}' | ',' | ';' => true,
        _ => false,
    }
}

/// ASCII punctuation: the four runs of the ASCII table between the digits,
/// the letters and the control characters.
pub open spec fn ascii_punct_char(c: char) -> bool {
    (0x21 <= c as u32 && c as u32 <= 0x2f) || (0x3a <= c as u32 && c as u32 <= 0x40) || (0x5b
        <= c as u32 && c as u32 <= 0x60) || (0x7b <= c as u32 && c as u32 <= 0x7e)
}

pub(crate) fn is_ascii_punct(c: char) -> (r: bool)
    ensures
        r == ascii_punct_char(c),
{
    let u: u32 = c as u32;
    (0x21 <= u && u <= 0x2f) || (0x3a <= u && u <= 0x40) || (0x5b <= u && u <= 0x60) || (0x7b <= u
        && u <= 0x7e)
}

/// Whether a character above the ASCII range has the Unicode `White_Space`
/// property. Only the standard library's tables decide this.
pub uninterp spec fn unicode_white_space(c: char) -> bool;

/// What `char::is_whitespace` returns: its source spells out the ASCII cases
/// and consults the Unicode `White_Space` table above ASCII.
pub open spec fn whitespace_char(c: char) -> bool {
    c == ' ' || (0x09 <= c as u32 && c as u32 <= 0x0d) || (c as u32 > 0x7f && unicode_white_space(
        c,
    ))
}

/// Relies on char::is_whitespace: true for a space or one of the five ASCII
/// control whitespace characters, and above ASCII exactly on the Unicode
/// `White_Space` property.
#[verifier::external_body]
pub(crate) fn char_is_whitespace(c: char) -> (r: bool)
    ensures
        r == whitespace_char(c),
        c as u32 > 0x7f ==> r == unicode_white_space(c),
{
    c.is_whitespace()
}

/// Whether a character above the ASCII range has the Unicode `Alphabetic`
/// property. Only the standard library's tables decide this.
pub uninterp spec fn unicode_alphabetic(c: char) -> bool;

/// What `char::is_alphabetic` returns: its source spells out the ASCII cases
/// and consults the Unicode `Alphabetic` table above ASCII.
pub open spec fn alphabetic_char(c: char) -> bool {
    (0x61 <= c as u32 && c as u32 <= 0x7a) || (0x41 <= c as u32 && c as u32 <= 0x5a) || (c as u32
        > 0x7f && unicode_alphabetic(c))
}

/// Relies on char::is_alphabetic: true for an ASCII letter, and above ASCII
/// exactly on the Unicode `Alphabetic` property.
#[verifier::external_body]
pub(crate) fn char_is_alphabetic(c: char) -> (r: bool)
    ensures
        r == alphabetic_char(c),
        c as u32 > 0x7f ==> r == unicode_alphabetic(c),
{
    c.is_alphabetic()
}

/// Whether a character above the ASCII range has one of the Unicode numeric
/// general categories. Only the standard library's tables decide this.
pub uninterp spec fn unicode_numeric(c: char) -> bool;

/// What `char::is_numeric` returns: its source spells out the ASCII digits
/// and consults the Unicode numeric-category tables above ASCII.
pub open spec fn numeric_char(c: char) -> bool {
    (0x30 <= c as u32 && c as u32 <= 0x39) || (c as u32 > 0x7f && unicode_numeric(c))
}

/// Relies on char::is_numeric: true for an ASCII digit, and above ASCII
/// exactly on the Unicode numeric general categories.
#[verifier::external_body]
pub(crate) fn char_is_numeric(c: char) -> (r: bool)
    ensures
        r == numeric_char(c),
        c as u32 > 0x7f ==> r == unicode_numeric(c),
{
    c.is_numeric()
}

/// A letter or a digit, in the sense of the scanner.
pub open spec fn alnum_char(c: char) -> bool {
    alphabetic_char(c) || numeric_char(c)
}

} // verus!
