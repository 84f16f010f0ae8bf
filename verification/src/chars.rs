//! Character classes of the Java language and the digits of its number
//! literals.

use vstd::prelude::*;

verus! {

/// Whether Unicode gives `c` the property Alphabetic.
pub uninterp spec fn unicode_alphabetic(c: char) -> bool;

/// Whether Unicode puts `c` into one of its categories for numbers.
pub uninterp spec fn unicode_numeric(c: char) -> bool;

/// Whether `c` is one of the 26 letters of ASCII, in either case.
pub open spec fn is_ascii_letter(c: char) -> bool {
    ('a' <= c && c <= 'z') || ('A' <= c && c <= 'Z')
}

/// Whether `c` is one of the ten digits of ASCII.
pub open spec fn is_ascii_digit(c: char) -> bool {
    '0' <= c && c <= '9'
}

/// `char::is_alphabetic` tells whether Unicode calls the character
/// alphabetic.
pub assume_specification[ char::is_alphabetic ](c: char) -> (r: bool)
    ensures
        r == unicode_alphabetic(c),
;

/// `char::is_numeric` tells whether Unicode calls the character a number.
pub assume_specification[ char::is_numeric ](c: char) -> (r: bool)
    ensures
        r == unicode_numeric(c),
;

/// Whether `v` is a Unicode scalar value: a code point that is no surrogate.
pub open spec fn is_scalar_value(v: u32) -> bool {
    v < 0xD800 || (0xE000 <= v && v <= 0x10FFFF)
}

/// `char::from_u32` gives the character with the code `v`, if `v` is a
/// scalar value.
pub assume_specification[ char::from_u32 ](v: u32) -> (r: Option<char>)
    ensures
        r == if is_scalar_value(v) {
            Some(v as char)
        } else {
            None::<char>
        },
;

/// Whether `c` is a letter: among the ASCII characters one of the 26 in
/// either case, among the others what Unicode calls alphabetic.
pub open spec fn alphabetic(c: char) -> bool {
    if (c as u32) < 0x80 {
        is_ascii_letter(c)
    } else {
        unicode_alphabetic(c)
    }
}

/// Whether `c` is a number: among the ASCII characters one of the ten
/// digits, among the others what Unicode calls a number.
pub open spec fn numeric(c: char) -> bool {
    if (c as u32) < 0x80 {
        is_ascii_digit(c)
    } else {
        unicode_numeric(c)
    }
}

/// Whitespace: space, tab, form feed, line feed, carriage return.
pub open spec fn java_whitespace(c: char) -> bool {
    c == ' ' || c == '\t' || c == '\u{c}' || c == '\n' || c == '\r'
}

/// A character that may start an identifier: a letter, `$`, `_` or one of
/// four currency signs.
pub open spec fn java_ident_start(c: char) -> bool {
    if c == '$' || c == '_' || ('\u{a2}' <= c && c <= '\u{a5}') {
        true
    } else if c == '\u{345}' || c == '\u{37f}' {
        false
    } else {
        alphabetic(c)
    }
}

/// A character that may stand inside an identifier.
pub open spec fn java_ident_part(c: char) -> bool {
    if c == '\u{ad}' || c <= '\u{8}' || ('\u{e}' <= c && c <= '\u{1b}') || ('\u{7f}' <= c && c
        <= '\u{9f}') || ('\u{300}' <= c && c <= '\u{374}') {
        true
    } else if c == '\u{37f}' {
        false
    } else {
        numeric(c) || java_ident_start(c)
    }
}

/// Whether `c` is a letter.
pub fn is_alphabetic(c: char) -> (r: bool)
    ensures
        r == alphabetic(c),
{
    if (c as u32) < 0x80 {
        ('a' <= c && c <= 'z') || ('A' <= c && c <= 'Z')
    } else {
        c.is_alphabetic()
    }
}

/// Whether `c` is a number.
pub fn is_numeric(c: char) -> (r: bool)
    ensures
        r == numeric(c),
{
    if (c as u32) < 0x80 {
        '0' <= c && c <= '9'
    } else {
        c.is_numeric()
    }
}

/// Whether `c` is whitespace.
pub fn is_java_whitespace(c: char) -> (r: bool)
    ensures
        r == java_whitespace(c),
{
    c == ' ' || c == '\t' || c == '\u{c}' || c == '\n' || c == '\r'
}

/// Whether `c` may start an identifier.
pub fn is_java_ident_start(c: char) -> (r: bool)
    ensures
        r == java_ident_start(c),
{
    if c == '$' || c == '_' || ('\u{a2}' <= c && c <= '\u{a5}') {
        true
    } else if c == '\u{345}' || c == '\u{37f}' {
        false
    } else {
        is_alphabetic(c)
    }
}

/// Whether `c` may stand inside an identifier.
pub fn is_java_ident_part(c: char) -> (r: bool)
    ensures
        r == java_ident_part(c),
{
    if c == '\u{ad}' || c <= '\u{8}' || ('\u{e}' <= c && c <= '\u{1b}') || ('\u{7f}' <= c && c
        <= '\u{9f}') || ('\u{300}' <= c && c <= '\u{374}') {
        true
    } else if c == '\u{37f}' {
        false
    } else {
        is_numeric(c) || is_java_ident_start(c)
    }
}

/// The value of `c` as a digit, with letters counting from ten on, if `c`
/// is a digit or a letter of ASCII and that value is below `radix`.
pub open spec fn digit_of(c: char, radix: u32) -> Option<u32> {
    let d: Option<int> = if '0' <= c && c <= '9' {
        Some(c as u32 - '0' as u32)
    } else if 'a' <= c && c <= 'z' {
        Some(c as u32 - 'a' as u32 + 10)
    } else if 'A' <= c && c <= 'Z' {
        Some(c as u32 - 'A' as u32 + 10)
    } else {
        None
    };
    match d {
        Some(v) if v < radix => Some(v as u32),
        _ => None,
    }
}

/// The value of `c` as a digit in the given radix.
pub fn to_digit(c: char, radix: u32) -> (r: Option<u32>)
    ensures
        r == digit_of(c, radix),
{
    let x: u32 = c as u32;
    let d: Option<u32> = if '0' <= c && c <= '9' {
        Some(x - 48)
    } else if 'a' <= c && c <= 'z' {
        Some(x - 97 + 10)
    } else if 'A' <= c && c <= 'Z' {
        Some(x - 65 + 10)
    } else {
        None
    };
    match d {
        Some(v) => if v < radix {
            Some(v)
        } else {
            None
        },
        None => None,
    }
}

} // verus!
