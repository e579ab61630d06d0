//! The classes of characters that the lexer tells apart, and text built
//! character by character.

use vstd::prelude::*;

verus! {

/// Whether a character is white space, as `char::is_whitespace` says.
pub uninterp spec fn is_whitespace(c: char) -> bool;

/// Whether a character is alphabetic, as `char::is_alphabetic` says.
pub uninterp spec fn is_alphabetic(c: char) -> bool;

/// Whether a character is numeric, as `char::is_numeric` says.
pub uninterp spec fn is_numeric(c: char) -> bool;

/// Whether a character is alphabetic or numeric.
pub open spec fn is_alphanumeric(c: char) -> bool {
    is_alphabetic(c) || is_numeric(c)
}

/// `char::is_whitespace`: whether the character has the Unicode property
/// `White_Space`.
#[verifier::external_body]
pub(crate) fn whitespace(c: char) -> (held: bool)
    ensures
        held == is_whitespace(c),
{
    c.is_whitespace()
}

/// `char::is_alphabetic`: whether the character has the Unicode property
/// `Alphabetic`.
#[verifier::external_body]
pub(crate) fn alphabetic(c: char) -> (held: bool)
    ensures
        held == is_alphabetic(c),
{
    c.is_alphabetic()
}

/// `char::is_numeric`: whether the character is in one of the Unicode
/// general categories for numbers.
#[verifier::external_body]
pub(crate) fn numeric(c: char) -> (held: bool)
    ensures
        held == is_numeric(c),
{
    c.is_numeric()
}

/// `char::is_alphanumeric`: whether the character is alphabetic or numeric;
/// std documents it as exactly that.
#[verifier::external_body]
pub(crate) fn alphanumeric(c: char) -> (held: bool)
    ensures
        held == is_alphanumeric(c),
{
    c.is_alphanumeric()
}

/// `String::push`: the character is appended to the text.
#[verifier::external_body]
pub(crate) fn push_char(text: &mut String, c: char)
    ensures
        final(text)@ == old(text)@.push(c),
{
    text.push(c)
}

} // verus!
