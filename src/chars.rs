//! Classes of characters that the JSON5 grammar distinguishes.

use vstd::prelude::*;

use crate::unicode::{minor_category, minor_category_of, MinorCategory};

verus! {

/// ECMAScript white space: TAB, VT, FF, SP, NBSP, BOM, and any other space separator (Zs).
pub open spec fn is_whitespace_char(c: char) -> bool {
    c == '\u{0009}' || c == '\u{000B}' || c == '\u{000C}' || c == '\u{0020}' || c == '\u{00A0}'
        || c == '\u{FEFF}' || minor_category(c) == MinorCategory::Zs
}

/// ECMAScript line terminators: LF, CR, LS and PS.
pub open spec fn is_line_terminator_char(c: char) -> bool {
    c == '\n' || c == '\r' || c == '\u{2028}' || c == '\u{2029}'
}

/// ASCII decimal digits.
pub open spec fn is_decimal_digit_char(c: char) -> bool {
    '0' <= c <= '9'
}

/// ASCII hexadecimal digits.
pub open spec fn is_hex_digit_char(c: char) -> bool {
    ('0' <= c <= '9') || ('a' <= c <= 'f') || ('A' <= c <= 'F')
}

/// Whether `c` is white space.
pub fn is_whitespace(c: char) -> (r: bool)
    ensures
        r == is_whitespace_char(c),
{
    if c == '\u{0009}' || c == '\u{000B}' || c == '\u{000C}' || c == '\u{0020}' || c == '\u{00A0}'
        || c == '\u{FEFF}' {
        true
    } else {
        minor_category_of(c) == MinorCategory::Zs
    }
}

/// Whether `c` is a line terminator.
pub fn is_line_terminator(c: char) -> (r: bool)
    ensures
        r == is_line_terminator_char(c),
{
    c == '\n' || c == '\r' || c == '\u{2028}' || c == '\u{2029}'
}

/// Whether `c` is an ASCII decimal digit.
pub fn is_decimal_digit(c: char) -> (r: bool)
    ensures
        r == is_decimal_digit_char(c),
{
    '0' <= c && c <= '9'
}

/// Whether `c` is an ASCII hexadecimal digit.
pub fn is_hex_digit(c: char) -> (r: bool)
    ensures
        r == is_hex_digit_char(c),
{
    ('0' <= c && c <= '9') || ('a' <= c && c <= 'f') || ('A' <= c && c <= 'F')
}

} // verus!
