//! Character classes of the scanner.

use vstd::prelude::*;

verus! {

/// The Unicode `Alphabetic` property of a character outside ASCII, as the
/// standard library's tables decide it.
pub uninterp spec fn unicode_alphabetic(c: char) -> bool;

/// Whether a character outside ASCII belongs to one of the Unicode general
/// categories for numbers (`Nd`, `Nl`, `No`), as the standard library's
/// tables decide it.
pub uninterp spec fn unicode_numeric(c: char) -> bool;

pub open spec fn is_ascii_letter(c: char) -> bool {
    ('a' <= c && c <= 'z') || ('A' <= c && c <= 'Z')
}

pub open spec fn is_ascii_digit(c: char) -> bool {
    '0' <= c && c <= '9'
}

/// A letter: in ASCII the fifty-two Latin letters, beyond it whatever
/// Unicode calls alphabetic.
pub open spec fn is_alphabetic_char(c: char) -> bool {
    if c <= '\x7f' {
        is_ascii_letter(c)
    } else {
        unicode_alphabetic(c)
    }
}

/// A numeric character: in ASCII the ten digits, beyond it whatever Unicode
/// puts in a number category.
pub open spec fn is_numeric_char(c: char) -> bool {
    if c <= '\x7f' {
        is_ascii_digit(c)
    } else {
        unicode_numeric(c)
    }
}

/// Insignificant whitespace. A newline is not blank: it is a token.
pub open spec fn is_blank(c: char) -> bool {
    c == ' ' || c == '\t' || c == '\r'
}

/// A character that may stand in an identifier or keyword.
pub open spec fn is_word_char(c: char) -> bool {
    is_alphabetic_char(c) || c == '_'
}

/// Trusted: `char::is_alphabetic` of the standard library. It answers by the
/// Unicode `Alphabetic` property; within ASCII that property holds of the
/// Latin letters and of nothing else, and beyond ASCII the answer is the
/// table lookup that `unicode_alphabetic` names.
pub assume_specification[ char::is_alphabetic ](c: char) -> (b: bool)
    ensures
        b == (if c <= '\x7f' {
            is_ascii_letter(c)
        } else {
            unicode_alphabetic(c)
        }),
;

/// Trusted: `char::is_numeric` of the standard library. It answers by the
/// Unicode general categories for numbers; within ASCII those hold of the
/// digits `0` to `9` and of nothing else, and beyond ASCII the answer is the
/// table lookup that `unicode_numeric` names.
pub assume_specification[ char::is_numeric ](c: char) -> (b: bool)
    ensures
        b == (if c <= '\x7f' {
            is_ascii_digit(c)
        } else {
            unicode_numeric(c)
        }),
;

} // verus!
