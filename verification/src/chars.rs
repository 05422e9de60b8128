//! The classes of characters that the source grammar is made of.
//!
//! The tests on digits and letters are those of the `nom` crate, which work
//! on bytes; a character outside the ASCII range belongs to none of the
//! classes.

use vstd::prelude::*;

verus! {

/// `nom::is_digit` tells whether a byte is an ASCII decimal digit, `0` to
/// `9`.
pub assume_specification[ nom::is_digit ](chr: u8) -> (r: bool)
    ensures
        r == (0x30 <= chr && chr <= 0x39),
;

/// `nom::is_hex_digit` tells whether a byte is an ASCII hexadecimal digit:
/// `0` to `9`, `A` to `F` or `a` to `f`.
pub assume_specification[ nom::is_hex_digit ](chr: u8) -> (r: bool)
    ensures
        r == ((0x30 <= chr && chr <= 0x39) || (0x41 <= chr && chr <= 0x46) || (0x61 <= chr && chr
            <= 0x66)),
;

/// `nom::is_alphabetic` tells whether a byte is an ASCII letter, `A` to `Z`
/// or `a` to `z`.
pub assume_specification[ nom::is_alphabetic ](chr: u8) -> (r: bool)
    ensures
        r == ((0x41 <= chr && chr <= 0x5A) || (0x61 <= chr && chr <= 0x7A)),
;

/// `nom::is_alphanumeric` tells whether a byte is an ASCII letter or an ASCII
/// decimal digit.
pub assume_specification[ nom::is_alphanumeric ](chr: u8) -> (r: bool)
    ensures
        r == ((0x41 <= chr && chr <= 0x5A) || (0x61 <= chr && chr <= 0x7A) || (0x30 <= chr && chr
            <= 0x39)),
;

/// A decimal digit.
pub open spec fn decimal_digit(c: char) -> bool {
    '0' <= c <= '9'
}

/// A hexadecimal digit, in either case.
pub open spec fn hex_digit(c: char) -> bool {
    '0' <= c <= '9' || 'A' <= c <= 'F' || 'a' <= c <= 'f'
}

/// A letter.
pub open spec fn letter(c: char) -> bool {
    'A' <= c <= 'Z' || 'a' <= c <= 'z'
}

/// A character that a name is made of: a letter, a digit or an underscore.
pub open spec fn identifier_char(c: char) -> bool {
    letter(c) || decimal_digit(c) || c == '_'
}

/// A space or a tab.
pub open spec fn blank(c: char) -> bool {
    c == ' ' || c == '\t'
}

/// The upper-case form of a letter; any other character is itself.
pub open spec fn upper(c: char) -> char {
    if 'a' <= c <= 'z' {
        ((c as u32) - 0x20) as char
    } else {
        c
    }
}

/// A text with every letter in upper case.
pub open spec fn upper_text(t: Seq<char>) -> Seq<char> {
    Seq::new(t.len(), |i: int| upper(t[i]))
}

/// The value of a digit in radix sixteen; zero for any other character.
pub open spec fn digit_value(c: char) -> int {
    if '0' <= c <= '9' {
        c as int - 0x30
    } else if 'A' <= c <= 'F' {
        c as int - 0x41 + 10
    } else if 'a' <= c <= 'f' {
        c as int - 0x61 + 10
    } else {
        0
    }
}

/// Whether a character is a decimal digit.
pub fn is_decimal_char(c: char) -> (r: bool)
    ensures
        r == decimal_digit(c),
{
    (c as u32) < 0x80 && nom::is_digit(c as u8)
}

/// Whether a character is a hexadecimal digit.
pub fn is_hex_char(c: char) -> (r: bool)
    ensures
        r == hex_digit(c),
{
    (c as u32) < 0x80 && nom::is_hex_digit(c as u8)
}

/// Whether a character is a letter.
pub fn is_letter(c: char) -> (r: bool)
    ensures
        r == letter(c),
{
    (c as u32) < 0x80 && nom::is_alphabetic(c as u8)
}

/// Whether a name may hold the character.
pub fn is_identifier_char(c: char) -> (r: bool)
    ensures
        r == identifier_char(c),
{
    c == '_' || ((c as u32) < 0x80 && nom::is_alphanumeric(c as u8))
}

/// Whether a character is a space or a tab.
pub fn is_blank(c: char) -> (r: bool)
    ensures
        r == blank(c),
{
    c == ' ' || c == '\t'
}

/// The upper-case form of a letter.
pub fn to_upper(c: char) -> (r: char)
    ensures
        r == upper(c),
{
    if is_letter(c) && (c as u32) >= 0x61 {
        ((c as u8) - 0x20) as char
    } else {
        c
    }
}

/// The value of a hexadecimal digit; zero for any other character.
pub fn value_of(c: char) -> (r: u32)
    ensures
        r == digit_value(c),
        r < 16,
{
    let b = c as u32;
    if !is_hex_char(c) {
        0
    } else if b <= 0x39 {
        b - 0x30
    } else if b <= 0x46 {
        b - 0x41 + 10
    } else {
        b - 0x61 + 10
    }
}

} // verus!
