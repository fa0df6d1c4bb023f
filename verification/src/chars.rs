//! Unicode character classes, as `std` defines them.

use vstd::prelude::*;

verus! {

/// Whether `c` has the Unicode `Alphabetic` property (`char::is_alphabetic`).
pub uninterp spec fn char_is_alphabetic(c: char) -> bool;

/// Whether `c` is alphabetic or numeric (`char::is_alphanumeric`).
pub uninterp spec fn char_is_alphanumeric(c: char) -> bool;

/// Whether `c` has the Unicode `White_Space` property (`char::is_whitespace`).
pub uninterp spec fn char_is_whitespace(c: char) -> bool;

/// An ASCII letter `A`–`Z` or `a`–`z`.
pub open spec fn ascii_letter(c: char) -> bool {
    (0x41 <= (c as u32) && (c as u32) <= 0x5A) || (0x61 <= (c as u32) && (c as u32) <= 0x7A)
}

/// An ASCII digit `0`–`9`.
pub open spec fn ascii_digit(c: char) -> bool {
    0x30 <= (c as u32) && (c as u32) <= 0x39
}

/// An ASCII white-space character: space, tab, line feed, vertical tab,
/// form feed or carriage return.
pub open spec fn ascii_space(c: char) -> bool {
    (c as u32) == 0x20 || (0x09 <= (c as u32) && (c as u32) <= 0x0D)
}

/// An ASCII punctuation character (`!`–`/`, `:`–`@`, `[`–`` ` ``, `{`–`~`).
pub open spec fn ascii_punct(c: char) -> bool {
    (0x21 <= (c as u32) && (c as u32) <= 0x2F) || (0x3A <= (c as u32) && (c as u32) <= 0x40) || (0x5B <= (
    c as u32) && (c as u32) <= 0x60) || (0x7B <= (c as u32) && (c as u32) <= 0x7E)
}

/// `std`'s `char::is_alphabetic`: the result is named, as the Unicode
/// `Alphabetic` table is not restated here. Of ASCII, the contract states
/// what the table gives: letters are alphabetic; digits, punctuation and
/// white space are not.
#[verifier::external_body]
pub(crate) fn is_alphabetic(c: char) -> (r: bool)
    ensures
        r == char_is_alphabetic(c),
        ascii_letter(c) ==> r,
        ascii_digit(c) || ascii_punct(c) || ascii_space(c) ==> !r,
{
    c.is_alphabetic()
}

/// `std`'s `char::is_alphanumeric`. Its documentation defines it as
/// `is_alphabetic() || is_numeric()`; of that, the contract states that an
/// alphabetic character is alphanumeric, and of ASCII that letters and
/// digits are alphanumeric while punctuation and white space are not. The
/// rest of the numeric table is left unsaid.
#[verifier::external_body]
pub(crate) fn is_alphanumeric(c: char) -> (r: bool)
    ensures
        r == char_is_alphanumeric(c),
        char_is_alphabetic(c) ==> r,
        ascii_letter(c) || ascii_digit(c) ==> r,
        ascii_punct(c) || ascii_space(c) ==> !r,
{
    c.is_alphanumeric()
}

/// `std`'s `char::is_whitespace`: the result is named, as the Unicode
/// `White_Space` table is not restated here. Of ASCII, the contract states
/// what the table gives: space, tab, line feed, vertical tab, form feed and
/// carriage return are white space; letters, digits and punctuation are
/// not.
#[verifier::external_body]
pub(crate) fn is_whitespace(c: char) -> (r: bool)
    ensures
        r == char_is_whitespace(c),
        ascii_space(c) ==> r,
        ascii_letter(c) || ascii_digit(c) || ascii_punct(c) ==> !r,
{
    c.is_whitespace()
}

} // verus!
