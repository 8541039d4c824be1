use weggli_ruleset::text::{chars_of, copy_range, holds_text, is_space_char, same_text, trim_range};

#[test]
fn white_space_is_what_the_standard_library_takes_for_it() {
    for code in 0..=0x10ffffu32 {
        if let Some(c) = char::from_u32(code) {
            assert_eq!(is_space_char(c), c.is_whitespace(), "U+{:04X}", code);
        }
    }
}

#[test]
fn chars_of_gives_the_characters_in_order() {
    assert_eq!(chars_of("h\u{e9}llo"), vec!['h', '\u{e9}', 'l', 'l', 'o']);
    assert_eq!(chars_of(""), Vec::<char>::new());
}

fn trimmed(s: &str) -> String {
    let chars = chars_of(s);
    let (a, b) = trim_range(&chars, 0, chars.len());
    chars[a..b].iter().collect()
}

#[test]
fn trim_range_takes_white_space_off_both_ends() {
    for s in ["  a b  ", "a", "", "   ", "\t\u{a0}x\u{3000}\n", "x  ", "  x", " \u{2003}inner \u{2003} space\r\n"] {
        assert_eq!(trimmed(s), s.trim(), "{:?}", s);
    }
}

#[test]
fn trim_range_stays_within_its_bounds() {
    let chars = chars_of("ab  cd  ef");
    assert_eq!(trim_range(&chars, 2, 8), (4, 6));
    assert_eq!(trim_range(&chars, 2, 4), (4, 4));
    assert_eq!(trim_range(&chars, 3, 3), (3, 3));
}

#[test]
fn same_text_compares_characters() {
    assert!(same_text("abc", "abc"));
    assert!(!same_text("abc", "abd"));
    assert!(!same_text("abc", "ab"));
    assert!(same_text("", ""));
}

#[test]
fn copy_range_counts_characters_not_bytes() {
    assert_eq!(copy_range("h\u{e9}llo", 1, 3), "\u{e9}l");
    assert_eq!(copy_range("abc", 3, 3), "");
    assert_eq!(copy_range("abc", 0, 3), "abc");
}

#[test]
fn holds_text_finds_a_text_in_a_list() {
    let values = vec![String::from("a"), String::from("bc")];
    assert!(holds_text(&values, "bc"));
    assert!(!holds_text(&values, "b"));
    assert!(!holds_text(&Vec::new(), "a"));
}
