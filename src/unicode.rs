//! Unicode character classes taken from the standard library.
use vstd::prelude::*;

verus! {

/// Letters and digits of ASCII.
pub open spec fn is_ascii_alnum(c: char) -> bool {
    let n = c as u32;
    (48 <= n && n <= 57) || (65 <= n && n <= 90) || (97 <= n && n <= 122)
}

/// Whitespace of ASCII as Unicode classifies it: space, tab, line feed,
/// vertical tab, form feed and carriage return.
pub open spec fn is_ascii_white(c: char) -> bool {
    let n = c as u32;
    n == 32 || (9 <= n && n <= 13)
}

/// Whether a character is Unicode Alphabetic or Numeric.
pub uninterp spec fn alphanumeric_of(c: char) -> bool;

/// Whether a character has the Unicode White_Space property.
pub uninterp spec fn white_space_of(c: char) -> bool;

/// Alphanumeric characters: exact on ASCII, by the Unicode tables beyond.
pub open spec fn alphanumeric(c: char) -> bool {
    if (c as u32) < 128 {
        is_ascii_alnum(c)
    } else {
        alphanumeric_of(c)
    }
}

/// Whitespace characters: exact on ASCII, by the Unicode tables beyond.
pub open spec fn white_space(c: char) -> bool {
    if (c as u32) < 128 {
        is_ascii_white(c)
    } else {
        white_space_of(c)
    }
}

/// Relies on `char::is_alphanumeric`: the Unicode Alphabetic property or a
/// Numeric general category, which among ASCII characters hold of exactly the
/// letters and the digits.
#[verifier::external_body]
pub(crate) fn is_alphanumeric(c: char) -> (r: bool)
    ensures
        r == alphanumeric_of(c),
        (c as u32) < 128 ==> (r <==> is_ascii_alnum(c)),
{
    c.is_alphanumeric()
}

/// Relies on `char::is_whitespace`: the Unicode White_Space property of
/// PropList.txt, which among ASCII characters holds of exactly space and the
/// characters from tab to carriage return.
#[verifier::external_body]
pub(crate) fn is_whitespace(c: char) -> (r: bool)
    ensures
        r == white_space_of(c),
        (c as u32) < 128 ==> (r <==> is_ascii_white(c)),
{
    c.is_whitespace()
}

} // verus!
