use epubsync::text::{
    blank, chars_of, day_of, decimal_i64, decimal_u64, same_text, trim, white_space,
};

#[test]
fn decimal_numbers_match_display() {
    for n in [0i64, 1, 9, 10, 99, 100, 12345, -1, -10, -909, i64::MAX, i64::MIN] {
        assert_eq!(decimal_i64(n), n.to_string());
    }
    for n in [0u64, 7, 10, 4_294_967_296, u64::MAX] {
        assert_eq!(decimal_u64(n), n.to_string());
    }
}

#[test]
fn trim_matches_str_trim() {
    for s in ["", "  ", "a", " a ", "\t\n a b \r\n", "\u{3000}x\u{2003}", "x\u{85}", "\u{a0}"] {
        assert_eq!(trim(s), s.trim(), "{s:?}");
        assert_eq!(blank(s), s.trim().is_empty(), "{s:?}");
    }
    for c in ['\t', ' ', '\u{1680}', '\u{200b}', 'a', '\u{feff}'] {
        assert_eq!(white_space(c), c.is_whitespace(), "{c:?}");
    }
}

#[test]
fn day_of_keeps_the_first_ten_characters() {
    for s in ["2026-09-08T10:00:00Z", "2026-09-08", "2026", "", "2026-09-0é", "202é-09-08x", "ééééééééééé", "𝄞𝄞𝄞𝄞𝄞𝄞𝄞𝄞𝄞𝄞𝄞"] {
        let ten: String = s.chars().take(10).collect();
        assert_eq!(day_of(s), ten, "{s:?}");
    }
}

#[test]
fn texts_compare_by_characters() {
    assert!(same_text("image", "image"));
    assert!(!same_text("image", "images"));
    assert!(!same_text("none", "nonE"));
    assert_eq!(chars_of("héllo"), vec!['h', 'é', 'l', 'l', 'o']);
}

#[test]
fn trimming_twice_is_trimming_once() {
    for s in ["  a b  ", "\u{2000}x\u{3000}", "", " "] {
        assert_eq!(trim(&trim(s)), trim(s));
    }
}
