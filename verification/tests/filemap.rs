use jswag::filemap::{char_index, FileMap, Loc};
use jswag::text::{byte_length, chars_of, same_text, string_of, text_is, utf8_len};

#[test]
fn new_map_has_one_line() {
    let fmap = FileMap::new("A.java".into(), "class A {}".into());
    assert_eq!(fmap.filename(), "A.java");
    assert_eq!(fmap.src(), "class A {}");
    assert_eq!(fmap.num_lines(), 0);
    assert_eq!(fmap.get_line_idx(0), 0);
    assert_eq!(fmap.get_line_idx(1000), 0);
    assert_eq!(fmap.get_loc(4), Loc { line: 0, col: 4 });
    assert_eq!(fmap.get_line(0), "class A {}");
}

#[test]
fn lines_are_found_by_offset() {
    let mut fmap = FileMap::new("f".into(), "ab\ncde\n\nf".into());
    fmap.add_line(3);
    fmap.add_line(7);
    fmap.add_line(8);
    assert_eq!(fmap.num_lines(), 3);
    assert_eq!(fmap.get_line_idx(0), 0);
    assert_eq!(fmap.get_line_idx(2), 0);
    assert_eq!(fmap.get_line_idx(3), 1);
    assert_eq!(fmap.get_line_idx(6), 1);
    assert_eq!(fmap.get_line_idx(7), 2);
    assert_eq!(fmap.get_line_idx(8), 3);
    assert_eq!(fmap.get_line_idx(usize::MAX), 3);
    assert_eq!(fmap.get_loc(5), Loc { line: 1, col: 2 });
    assert_eq!(fmap.get_line(0), "ab");
    assert_eq!(fmap.get_line(1), "cde");
    assert_eq!(fmap.get_line(2), "");
    assert_eq!(fmap.get_line(3), "f");
}

#[test]
fn a_line_start_lies_at_column_zero_of_its_line() {
    let mut fmap = FileMap::new("f".into(), "a\nbb\nccc\ndddd".into());
    let starts = [0usize, 2, 5, 9];
    for s in &starts[1..] {
        fmap.add_line(*s);
    }
    for (i, s) in starts.iter().enumerate() {
        assert_eq!(fmap.get_loc(*s), Loc { line: i, col: 0 });
    }
}

#[test]
fn many_lines() {
    let src: String = "x\n".repeat(1000);
    let mut fmap = FileMap::new("f".into(), src);
    for i in 1..1000 {
        fmap.add_line(2 * i);
    }
    for i in 0..1000 {
        assert_eq!(fmap.get_loc(2 * i + 1), Loc { line: i, col: 1 });
    }
}

#[test]
fn a_line_past_the_end_is_empty() {
    let mut fmap = FileMap::new("f".into(), "ab".into());
    fmap.add_line(10);
    assert_eq!(fmap.get_line(1), "");
    assert_eq!(fmap.get_loc(12), Loc { line: 1, col: 2 });
}

#[test]
fn lines_with_wide_characters() {
    let mut fmap = FileMap::new("f".into(), "äö\n€x\n𝄞".into());
    fmap.add_line(5);
    fmap.add_line(10);
    assert_eq!(fmap.get_line(0), "äö");
    assert_eq!(fmap.get_line(1), "€x");
    assert_eq!(fmap.get_line(2), "𝄞");
    assert_eq!(fmap.chars().len(), 7);
}

#[test]
fn lengths_in_bytes() {
    assert_eq!(utf8_len('a'), 1);
    assert_eq!(utf8_len('\u{7f}'), 1);
    assert_eq!(utf8_len('\u{80}'), 2);
    assert_eq!(utf8_len('ß'), 2);
    assert_eq!(utf8_len('\u{7ff}'), 2);
    assert_eq!(utf8_len('\u{800}'), 3);
    assert_eq!(utf8_len('€'), 3);
    assert_eq!(utf8_len('\u{ffff}'), 3);
    assert_eq!(utf8_len('\u{10000}'), 4);
    assert_eq!(utf8_len('𝄞'), 4);
    assert_eq!(byte_length("aß€𝄞"), 10);
    assert_eq!(byte_length(""), 0);
}

#[test]
fn characters_and_offsets() {
    let v = chars_of("aß€𝄞b");
    assert_eq!(v, vec!['a', 'ß', '€', '𝄞', 'b']);
    assert_eq!(char_index(&v, 0), 0);
    assert_eq!(char_index(&v, 1), 1);
    assert_eq!(char_index(&v, 2), 2);
    assert_eq!(char_index(&v, 3), 2);
    assert_eq!(char_index(&v, 6), 3);
    assert_eq!(char_index(&v, 10), 4);
    assert_eq!(char_index(&v, 11), 5);
    assert_eq!(char_index(&v, 99), 5);
    assert_eq!(string_of(&v, 1, 4), "ß€𝄞");
    assert_eq!(string_of(&v, 2, 2), "");
}

#[test]
fn texts_are_compared() {
    assert!(same_text("abc", "abc"));
    assert!(!same_text("abc", "abd"));
    assert!(!same_text("abc", "ab"));
    assert!(same_text("", ""));
    assert!(text_is(&vec!['t', 'r', 'u', 'e'], "true"));
    assert!(!text_is(&vec!['t', 'r', 'u'], "true"));
    assert!(!text_is(&vec!['t', 'r', 'u', 'e', 'e'], "true"));
    assert!(!text_is(&vec!['t', 'r', 'u', 'x'], "true"));
    assert!(text_is(&vec![], ""));
}
