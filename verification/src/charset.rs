//! Character classes the scanner distinguishes.

use vstd::prelude::*;

verus! {

/// The characters skipped between tokens: space, tab, carriage return,
/// newline — and no others.
pub open spec fn is_ws(c: char) -> bool {
    c == ' ' || c == '\t' || c == '\r' || c == '\n'
}

/// The two quote characters that open (and close) a string literal.
pub open spec fn is_quote_char(c: char) -> bool {
    c == '\'' || c == '"'
}

/// ASCII letters.
pub open spec fn ascii_alpha(c: char) -> bool {
    ('a' <= c && c <= 'z') || ('A' <= c && c <= 'Z')
}

/// ASCII digits.
pub open spec fn ascii_digit(c: char) -> bool {
    '0' <= c && c <= '9'
}

/// The Unicode `Alphabetic` property on the characters beyond ASCII, left
/// abstract: it is whatever `char::is_alphabetic` answers there.
pub uninterp spec fn alpha_ext(c: char) -> bool;

/// Unicode alphanumeric classification beyond ASCII, abstract likewise.
pub uninterp spec fn alnum_ext(c: char) -> bool;

/// An alphabetic character as `char::is_alphabetic` decides it: within
/// ASCII exactly the letters, beyond ASCII the abstract classification.
pub open spec fn is_alpha(c: char) -> bool {
    if (c as u32) < 128 {
        ascii_alpha(c)
    } else {
        alpha_ext(c)
    }
}

/// An alphanumeric character as `char::is_alphanumeric` decides it: within
/// ASCII exactly the letters and digits, beyond ASCII the abstract
/// classification.
pub open spec fn is_alnum(c: char) -> bool {
    if (c as u32) < 128 {
        ascii_alpha(c) || ascii_digit(c)
    } else {
        alnum_ext(c)
    }
}

/// A character that starts, and continues, an identifier: alphabetic or
/// underscore.
pub open spec fn is_ident_char(c: char) -> bool {
    is_alpha(c) || c == '_'
}

/// Relies on `char::is_alphabetic`: a pure classification of the single
/// character, true on the ASCII letters, false on every other ASCII
/// character, and the Unicode `Alphabetic` property beyond ASCII.
#[verifier::external_body]
pub(crate) fn char_is_alpha(c: char) -> (r: bool)
    ensures
        r == is_alpha(c),
        (c as u32) >= 128 ==> r == alpha_ext(c),
{
    c.is_alphabetic()
}

/// Relies on `char::is_alphanumeric`: a pure classification of the single
/// character, true on the ASCII letters and digits, false on every other
/// ASCII character, and the Unicode classification beyond ASCII.
#[verifier::external_body]
pub(crate) fn char_is_alnum(c: char) -> (r: bool)
    ensures
        r == is_alnum(c),
        (c as u32) >= 128 ==> r == alnum_ext(c),
{
    c.is_alphanumeric()
}

} // verus!
