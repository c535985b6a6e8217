//! Unicode character classes, as std's `char` methods decide them.
use vstd::prelude::*;

verus! {

/// Whether std counts `c` as alphabetic (Unicode `Alphabetic` property).
pub uninterp spec fn alphabetic(c: char) -> bool;

/// Whether std counts `c` as numeric (Unicode general categories `Nd`, `Nl`, `No`).
pub uninterp spec fn numeric(c: char) -> bool;

/// Whether std counts `c` as uppercase (Unicode `Uppercase` property).
pub uninterp spec fn uppercase(c: char) -> bool;

/// An ASCII character.
pub open spec fn ascii(c: char) -> bool {
    c <= '\x7f'
}

/// Alphabetic as std decides it: among ASCII characters exactly the Latin
/// letters.
pub open spec fn alpha(c: char) -> bool {
    if ascii(c) {
        ('a' <= c <= 'z') || ('A' <= c <= 'Z')
    } else {
        alphabetic(c)
    }
}

/// Numeric as std decides it: among ASCII characters exactly the digits.
pub open spec fn num(c: char) -> bool {
    if ascii(c) {
        '0' <= c <= '9'
    } else {
        numeric(c)
    }
}

/// Uppercase as std decides it: among ASCII characters exactly `A` to `Z`.
pub open spec fn upper(c: char) -> bool {
    if ascii(c) {
        'A' <= c <= 'Z'
    } else {
        uppercase(c)
    }
}

/// An ASCII decimal digit.
pub open spec fn digit(c: char) -> bool {
    '0' <= c <= '9'
}

/// Relies on `char::is_alphabetic`, which depends on the character alone;
/// std documents it as the Unicode `Alphabetic` property, which among ASCII
/// characters holds for the letters only.
#[verifier::external_body]
pub(crate) fn is_alphabetic(c: char) -> (r: bool)
    ensures
        r == alphabetic(c),
        r == alpha(c),
{
    c.is_alphabetic()
}

/// Relies on `char::is_numeric`, which depends on the character alone;
/// std documents it as the general categories `Nd`, `Nl`, `No`, which among
/// ASCII characters hold for the digits only.
#[verifier::external_body]
pub(crate) fn is_numeric(c: char) -> (r: bool)
    ensures
        r == numeric(c),
        r == num(c),
{
    c.is_numeric()
}

/// Relies on `char::is_uppercase`, which depends on the character alone;
/// std documents it as the Unicode `Uppercase` property, which among ASCII
/// characters holds for `A` to `Z` only.
#[verifier::external_body]
pub(crate) fn is_uppercase(c: char) -> (r: bool)
    ensures
        r == uppercase(c),
        r == upper(c),
{
    c.is_uppercase()
}

/// A character that may continue an identifier.
pub open spec fn word_char(c: char) -> bool {
    alpha(c) || num(c) || c == '_'
}

/// A character that may start an identifier or keyword.
pub open spec fn word_start(c: char) -> bool {
    alpha(c) || c == '_'
}

/// Horizontal whitespace, skipped between tokens.
pub open spec fn blank(c: char) -> bool {
    c == ' ' || c == '\t' || c == '\r'
}

/// Whether `c` may continue an identifier.
pub fn is_word_char(c: char) -> (r: bool)
    ensures
        r == word_char(c),
{
    c == '_' || is_alphabetic(c) || is_numeric(c)
}

} // verus!
