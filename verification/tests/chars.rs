use jswag::chars::{
    is_alphabetic, is_java_ident_part, is_java_ident_start, is_java_whitespace, is_numeric,
    to_digit,
};

#[test]
fn classes_of_characters() {
    for c in ['a', 'z', 'A', 'Z', 'é', 'Ω', '京'] {
        assert!(is_alphabetic(c));
        assert!(is_java_ident_start(c));
        assert!(is_java_ident_part(c));
        assert!(!is_numeric(c));
    }
    for c in ['0', '9', '_', '$', ' ', '{', '💝', '\u{7f}'] {
        assert!(!is_alphabetic(c));
    }
    // a Roman numeral is a number and a letter
    assert!(is_numeric('Ⅷ') && is_java_ident_start('Ⅷ'));
    for c in ['0', '5', '9', '٣', '²'] {
        assert!(is_numeric(c));
        assert!(is_java_ident_part(c));
        assert!(!is_java_ident_start(c));
    }
    for c in ['$', '_', '\u{a2}', '\u{a3}', '\u{a4}', '\u{a5}'] {
        assert!(is_java_ident_start(c));
        assert!(is_java_ident_part(c));
    }
    for c in ['\u{0}', '\u{8}', '\u{e}', '\u{1b}', '\u{7f}', '\u{9f}', '\u{ad}', '\u{300}', '\u{345}', '\u{374}'] {
        assert!(is_java_ident_part(c));
    }
    for c in ['\u{345}', '\u{37f}', '\u{9}', ' ', '+', '\u{a1}', '\u{a6}'] {
        assert!(!is_java_ident_start(c));
    }
    for c in ['\u{37f}', '\u{9}', '\u{d}', '\u{1c}', ' ', '+', '~'] {
        assert!(!is_java_ident_part(c));
    }
    for c in [' ', '\t', '\u{c}', '\n', '\r'] {
        assert!(is_java_whitespace(c));
    }
    for c in ['\u{b}', '\u{a0}', 'a', '\u{2028}'] {
        assert!(!is_java_whitespace(c));
    }
}

#[test]
fn values_of_digits() {
    assert_eq!(to_digit('0', 2), Some(0));
    assert_eq!(to_digit('2', 2), None);
    assert_eq!(to_digit('7', 8), Some(7));
    assert_eq!(to_digit('8', 8), None);
    assert_eq!(to_digit('9', 10), Some(9));
    assert_eq!(to_digit('a', 10), None);
    assert_eq!(to_digit('a', 16), Some(10));
    assert_eq!(to_digit('F', 16), Some(15));
    assert_eq!(to_digit('g', 16), None);
    assert_eq!(to_digit('z', 36), Some(35));
    assert_eq!(to_digit('٣', 10), None);
    for radix in [2u32, 8, 10, 16, 36] {
        for c in ['0', '1', '7', '9', 'a', 'f', 'G', 'z', '_', 'é'] {
            assert_eq!(to_digit(c, radix), c.to_digit(radix));
        }
    }
}

#[test]
fn a_radix_above_the_letters() {
    assert_eq!(to_digit('z', 40), Some(35));
    assert_eq!(to_digit('!', 40), None);
    assert_eq!(to_digit('0', 0), None);
    assert_eq!(to_digit('0', 1), Some(0));
}
